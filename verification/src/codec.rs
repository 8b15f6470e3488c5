//! The encoding of journal entries as service protocol messages, and back.

use vstd::prelude::*;
use crate::wire::{
    Field, FieldV, WireValue, WireValueV, spec_read_fields, read_fields, spec_encode_fields, valid_field,
    valid_fields, varint_limit, field_number_limit, write_fields, encode_fields, lemma_fields_round_trip,
    lemma_read_fields_append, lemma_encode_fields_append, spec_varint, spec_encode_field,
};
use crate::entry::{
    Entry, EntryV, EntryType, Failure, FailureV, CompletionResult, CompletionResultV, EntryResult,
    EntryResultV, GetStateKeysResult, GetStateKeysResultV, SleepResult, SleepResultV, CompleteResult,
    CompleteResultV, InvokeRequest, InvokeRequestV, HeaderV, header_view, headers_view, bytes_list_view,
    opt_view,
};
use crate::types::Header;

verus! {

pub open spec fn fields_view(fs: Seq<Field>) -> Seq<FieldV> {
    fs.map_values(|f: Field| f@)
}

/// The last field whose number is one of `a`, `b`, `c`.
pub open spec fn spec_last_of(fs: Seq<FieldV>, a: nat, b: nat, c: nat) -> Option<FieldV>
    decreases fs.len(),
{
    if fs.len() == 0 {
        None
    } else if fs.last().number == a || fs.last().number == b || fs.last().number == c {
        Some(fs.last())
    } else {
        spec_last_of(fs.drop_last(), a, b, c)
    }
}

/// All fields numbered `n`, in order.
pub open spec fn spec_all_of(fs: Seq<FieldV>, n: nat) -> Seq<FieldV>
    decreases fs.len(),
{
    if fs.len() == 0 {
        Seq::empty()
    } else if fs.last().number == n {
        spec_all_of(fs.drop_last(), n).push(fs.last())
    } else {
        spec_all_of(fs.drop_last(), n)
    }
}

/// The bytes of a field of type bytes (or of a nested message): empty where the
/// field is absent, `None` where it has another wire type.
pub open spec fn spec_bytes_of(f: Option<FieldV>) -> Option<Seq<u8>> {
    match f {
        None => Some(Seq::empty()),
        Some(g) => match g.value {
            WireValueV::Bytes(b) => Some(b),
            _ => None,
        },
    }
}

/// The text of a string field: empty where absent, `None` where it is not UTF-8.
pub open spec fn spec_string_of(f: Option<FieldV>) -> Option<Seq<char>> {
    match spec_bytes_of(f) {
        Some(b) => if vstd::utf8::valid_utf8(b) {
            Some(vstd::utf8::decode_utf8(b))
        } else {
            None
        },
        None => None,
    }
}

/// The value of a varint field: zero where absent.
pub open spec fn spec_varint_of(f: Option<FieldV>) -> Option<nat> {
    match f {
        None => Some(0),
        Some(g) => match g.value {
            WireValueV::Varint(v) => Some(v),
            _ => None,
        },
    }
}

/// A failure message: code (field 1) and message (field 2).
pub open spec fn spec_decode_failure(b: Seq<u8>) -> Option<FailureV> {
    match spec_read_fields(b) {
        Some(fs) => match (spec_varint_of(spec_last_of(fs, 1, 0, 0)), spec_string_of(spec_last_of(fs, 2, 0, 0))) {
            (Some(code), Some(message)) => Some(FailureV { code: (code % 0x1_0000_0000) as u32, message }),
            _ => None,
        },
        None => None,
    }
}

/// A header message: key (field 1) and value (field 2).
pub open spec fn spec_decode_header(b: Seq<u8>) -> Option<HeaderV> {
    match spec_read_fields(b) {
        Some(fs) => match (spec_string_of(spec_last_of(fs, 1, 0, 0)), spec_string_of(spec_last_of(fs, 2, 0, 0))) {
            (Some(name), Some(value)) => Some(HeaderV { name, value }),
            _ => None,
        },
        None => None,
    }
}

/// The headers carried by the given (repeated) header fields.
pub open spec fn spec_decode_headers(fs: Seq<FieldV>) -> Option<Seq<HeaderV>>
    decreases fs.len(),
{
    if fs.len() == 0 {
        Some(Seq::empty())
    } else {
        match (spec_decode_headers(fs.drop_last()), spec_bytes_of(Some(fs.last()))) {
            (Some(hs), Some(b)) => match spec_decode_header(b) {
                Some(h) => Some(hs.push(h)),
                None => None,
            },
            _ => None,
        }
    }
}

/// The bytes carried by the given (repeated) bytes fields.
pub open spec fn spec_decode_bytes_list(fs: Seq<FieldV>) -> Option<Seq<Seq<u8>>>
    decreases fs.len(),
{
    if fs.len() == 0 {
        Some(Seq::empty())
    } else {
        match (spec_decode_bytes_list(fs.drop_last()), spec_bytes_of(Some(fs.last()))) {
            (Some(bs), Some(b)) => Some(bs.push(b)),
            _ => None,
        }
    }
}

/// A state keys message: the keys (repeated field 1).
pub open spec fn spec_decode_state_keys(b: Seq<u8>) -> Option<Seq<Seq<u8>>> {
    match spec_read_fields(b) {
        Some(fs) => spec_decode_bytes_list(spec_all_of(fs, 1)),
        None => None,
    }
}

/// A result carried by a group of alternative fields.
pub enum OneOfV {
    Unset,
    Empty,
    Value(Seq<u8>),
    Failure(FailureV),
}

/// Reads the group of alternatives `empty` (an empty message), `value` (bytes)
/// and `failure` (a failure message): the last of them that is present decides.
/// A field number 0 stands for an alternative the group does not have.
pub open spec fn spec_one_of(fs: Seq<FieldV>, empty: nat, value: nat, failure: nat) -> Option<OneOfV> {
    match spec_last_of(fs, empty, value, failure) {
        None => Some(OneOfV::Unset),
        Some(f) => match f.value {
            WireValueV::Bytes(b) => if f.number == empty {
                if spec_read_fields(b) is Some {
                    Some(OneOfV::Empty)
                } else {
                    None
                }
            } else if f.number == value {
                Some(OneOfV::Value(b))
            } else {
                match spec_decode_failure(b) {
                    Some(fl) => Some(OneOfV::Failure(fl)),
                    None => None,
                }
            },
            _ => None,
        },
    }
}


/// Decodes UTF-8 text through `String::from_utf8` of the standard library, which
/// accepts exactly the byte strings that are valid UTF-8 and then holds the text
/// they encode.
#[verifier::external_body]
pub(crate) fn string_from_utf8(bytes: Vec<u8>) -> (r: Option<String>)
    ensures
        r is Some <==> vstd::utf8::valid_utf8(bytes@),
        r matches Some(s) ==> s@ == vstd::utf8::decode_utf8(bytes@),
{
    String::from_utf8(bytes).ok()
}

/// The UTF-8 bytes of a text.
pub fn string_bytes(s: &String) -> (r: Vec<u8>)
    ensures
        r@ == vstd::utf8::encode_utf8(s@),
{
    let b = s.as_str().as_bytes();
    copy_all(b)
}

pub(crate) fn copy_all(b: &[u8]) -> (r: Vec<u8>)
    ensures
        r@ == b@,
{
    let r = crate::wire::copy_range(b, 0, b.len());
    assert(b@.subrange(0, b@.len() as int) =~= b@);
    r
}

proof fn lemma_last_of_take(fs: Seq<FieldV>, a: nat, b: nat, c: nat, i: int)
    requires
        0 <= i < fs.len(),
    ensures
        spec_last_of(fs.take(i + 1), a, b, c) == if fs[i].number == a || fs[i].number == b || fs[i].number == c {
            Some(fs[i])
        } else {
            spec_last_of(fs.take(i), a, b, c)
        },
{
    assert(fs.take(i + 1).drop_last() =~= fs.take(i));
}

/// The last field whose number is one of `a`, `b`, `c`.
pub fn last_of(fs: &Vec<Field>, a: u32, b: u32, c: u32) -> (r: Option<&Field>)
    ensures
        r is None <==> spec_last_of(fields_view(fs@), a as nat, b as nat, c as nat) is None,
        r matches Some(f) ==> spec_last_of(fields_view(fs@), a as nat, b as nat, c as nat) == Some(f@),
{
    let ghost v = fields_view(fs@);
    let mut i: usize = fs.len();
    assert(v.take(fs@.len() as int) =~= v);
    while i > 0
        invariant
            i <= fs@.len(),
            v == fields_view(fs@),
            spec_last_of(v, a as nat, b as nat, c as nat) == spec_last_of(v.take(i as int), a as nat, b as nat, c as nat),
        decreases i,
    {
        i = i - 1;
        proof {
            lemma_last_of_take(v, a as nat, b as nat, c as nat, i as int);
        }
        let n = fs[i].number;
        if n == a || n == b || n == c {
            return Some(&fs[i]);
        }
    }
    None
}

/// All fields numbered `n`, in order.
pub fn all_of(fs: &Vec<Field>, n: u32) -> (r: Vec<&Field>)
    ensures
        r@.map_values(|f: &Field| f@) == spec_all_of(fields_view(fs@), n as nat),
{
    let ghost v = fields_view(fs@);
    let mut r: Vec<&Field> = Vec::new();
    let mut i: usize = 0;
    assert(v.take(0) =~= Seq::<FieldV>::empty());
    while i < fs.len()
        invariant
            i <= fs@.len(),
            v == fields_view(fs@),
            r@.map_values(|f: &Field| f@) == spec_all_of(v.take(i as int), n as nat),
        decreases fs@.len() - i,
    {
        assert(v.take(i + 1).drop_last() =~= v.take(i as int));
        if fs[i].number == n {
            let ghost before = r@;
            r.push(&fs[i]);
            assert(r@.map_values(|f: &Field| f@) =~= before.map_values(|f: &Field| f@).push(fs@[i as int]@));
        }
        i = i + 1;
    }
    assert(v.take(fs@.len() as int) =~= v);
    r
}

/// The bytes of a bytes field (empty where absent).
pub fn bytes_of(f: Option<&Field>) -> (r: Option<Vec<u8>>)
    ensures
        match spec_bytes_of(opt_view(f)) {
            Some(b) => r matches Some(x) && x@ == b,
            None => r is None,
        },
{
    match f {
        None => Some(Vec::new()),
        Some(g) => match &g.value {
            WireValue::Bytes(b) => Some(copy_all(b.as_slice())),
            _ => None,
        },
    }
}

/// The text of a string field (empty where absent).
pub fn string_of(f: Option<&Field>) -> (r: Option<String>)
    ensures
        match spec_string_of(opt_view(f)) {
            Some(t) => r matches Some(x) && x@ == t,
            None => r is None,
        },
{
    match bytes_of(f) {
        Some(b) => string_from_utf8(b),
        None => None,
    }
}

/// The value of a varint field (zero where absent).
pub fn varint_of(f: Option<&Field>) -> (r: Option<u64>)
    ensures
        match spec_varint_of(opt_view(f)) {
            Some(v) => r matches Some(x) && x as nat == v,
            None => r is None,
        },
{
    match f {
        None => Some(0),
        Some(g) => match &g.value {
            WireValue::Varint(v) => Some(*v),
            _ => None,
        },
    }
}

/// Decodes a failure message.
pub fn decode_failure(b: &[u8]) -> (r: Option<Failure>)
    ensures
        opt_view(r) == spec_decode_failure(b@),
{
    let fs = match read_fields(b) {
        Some(fs) => fs,
        None => return None,
    };
    let code = varint_of(last_of(&fs, 1, 0, 0));
    let message = string_of(last_of(&fs, 2, 0, 0));
    match (code, message) {
        (Some(code), Some(message)) => Some(Failure { code: (code % 0x1_0000_0000) as u32, message }),
        _ => None,
    }
}

/// Decodes a header message.
pub fn decode_header(b: &[u8]) -> (r: Option<Header>)
    ensures
        match spec_decode_header(b@) {
            Some(h) => r matches Some(x) && header_view(x) == h,
            None => r is None,
        },
{
    let fs = match read_fields(b) {
        Some(fs) => fs,
        None => return None,
    };
    let name = string_of(last_of(&fs, 1, 0, 0));
    let value = string_of(last_of(&fs, 2, 0, 0));
    match (name, value) {
        (Some(name), Some(value)) => Some(Header { name, value }),
        _ => None,
    }
}

/// Decodes the headers carried by the given fields.
pub fn decode_headers(fs: &Vec<&Field>) -> (r: Option<Vec<Header>>)
    ensures
        match spec_decode_headers(fs@.map_values(|f: &Field| f@)) {
            Some(hs) => r matches Some(x) && headers_view(x@) == hs,
            None => r is None,
        },
{
    let ghost v = fs@.map_values(|f: &Field| f@);
    let mut out: Vec<Header> = Vec::new();
    let mut i: usize = 0;
    assert(v.take(0) =~= Seq::<FieldV>::empty());
    assert(headers_view(out@) =~= Seq::<HeaderV>::empty());
    while i < fs.len()
        invariant
            i <= fs@.len(),
            v == fs@.map_values(|f: &Field| f@),
            spec_decode_headers(v.take(i as int)) == Some(headers_view(out@)),
        decreases fs@.len() - i,
    {
        assert(v.take(i + 1).drop_last() =~= v.take(i as int));
        assert(v.take(i + 1).last() == fs@[i as int]@);
        let b = match bytes_of(Some(fs[i])) {
            Some(b) => b,
            None => {
                proof { lemma_decode_headers_error(v, i as int); }
                return None;
            },
        };
        match decode_header(b.as_slice()) {
            Some(h) => {
                let ghost before = out@;
                out.push(h);
                assert(headers_view(out@) =~= headers_view(before).push(header_view(h)));
            },
            None => {
                proof { lemma_decode_headers_error(v, i as int); }
                return None;
            },
        }
        i = i + 1;
    }
    assert(v.take(fs@.len() as int) =~= v);
    Some(out)
}

proof fn lemma_decode_headers_error(v: Seq<FieldV>, i: int)
    requires
        0 <= i < v.len(),
        spec_decode_headers(v.take(i + 1)) is None,
    ensures
        spec_decode_headers(v) is None,
    decreases v.len() - i,
{
    if i + 1 < v.len() {
        assert(v.take(i + 2).drop_last() =~= v.take(i + 1));
        lemma_decode_headers_error(v, i + 1);
    } else {
        assert(v.take(i + 1) =~= v);
    }
}

proof fn lemma_decode_bytes_list_error(v: Seq<FieldV>, i: int)
    requires
        0 <= i < v.len(),
        spec_decode_bytes_list(v.take(i + 1)) is None,
    ensures
        spec_decode_bytes_list(v) is None,
    decreases v.len() - i,
{
    if i + 1 < v.len() {
        assert(v.take(i + 2).drop_last() =~= v.take(i + 1));
        lemma_decode_bytes_list_error(v, i + 1);
    } else {
        assert(v.take(i + 1) =~= v);
    }
}

/// Decodes the bytes carried by the given fields.
pub fn decode_bytes_list(fs: &Vec<&Field>) -> (r: Option<Vec<Vec<u8>>>)
    ensures
        match spec_decode_bytes_list(fs@.map_values(|f: &Field| f@)) {
            Some(bs) => r matches Some(x) && bytes_list_view(x@) == bs,
            None => r is None,
        },
{
    let ghost v = fs@.map_values(|f: &Field| f@);
    let mut out: Vec<Vec<u8>> = Vec::new();
    let mut i: usize = 0;
    assert(v.take(0) =~= Seq::<FieldV>::empty());
    assert(bytes_list_view(out@) =~= Seq::<Seq<u8>>::empty());
    while i < fs.len()
        invariant
            i <= fs@.len(),
            v == fs@.map_values(|f: &Field| f@),
            spec_decode_bytes_list(v.take(i as int)) == Some(bytes_list_view(out@)),
        decreases fs@.len() - i,
    {
        assert(v.take(i + 1).drop_last() =~= v.take(i as int));
        assert(v.take(i + 1).last() == fs@[i as int]@);
        match bytes_of(Some(fs[i])) {
            Some(b) => {
                let ghost before = out@;
                out.push(b);
                assert(bytes_list_view(out@) =~= bytes_list_view(before).push(b@));
            },
            None => {
                proof { lemma_decode_bytes_list_error(v, i as int); }
                return None;
            },
        }
        i = i + 1;
    }
    assert(v.take(fs@.len() as int) =~= v);
    Some(out)
}

/// Decodes a state keys message: its keys.
pub fn decode_state_keys(b: &[u8]) -> (r: Option<Vec<Vec<u8>>>)
    ensures
        match spec_decode_state_keys(b@) {
            Some(ks) => r matches Some(x) && bytes_list_view(x@) == ks,
            None => r is None,
        },
{
    let fs = match read_fields(b) {
        Some(fs) => fs,
        None => return None,
    };
    let keys = all_of(&fs, 1);
    decode_bytes_list(&keys)
}

/// A result carried by a group of alternative fields.
#[derive(Debug)]
pub enum OneOf {
    Unset,
    Empty,
    Value(Vec<u8>),
    Failure(Failure),
}

impl View for OneOf {
    type V = OneOfV;

    open spec fn view(&self) -> OneOfV {
        match self {
            OneOf::Unset => OneOfV::Unset,
            OneOf::Empty => OneOfV::Empty,
            OneOf::Value(b) => OneOfV::Value(b@),
            OneOf::Failure(f) => OneOfV::Failure(f@),
        }
    }
}

/// Reads a group of alternative fields (see `spec_one_of`).
pub fn one_of(fs: &Vec<Field>, empty: u32, value: u32, failure: u32) -> (r: Option<OneOf>)
    ensures
        opt_view(r) == spec_one_of(fields_view(fs@), empty as nat, value as nat, failure as nat),
{
    match last_of(fs, empty, value, failure) {
        None => Some(OneOf::Unset),
        Some(f) => match &f.value {
            WireValue::Bytes(b) => {
                if f.number == empty {
                    if read_fields(b.as_slice()).is_some() {
                        Some(OneOf::Empty)
                    } else {
                        None
                    }
                } else if f.number == value {
                    Some(OneOf::Value(copy_all(b.as_slice())))
                } else {
                    match decode_failure(b.as_slice()) {
                        Some(fl) => Some(OneOf::Failure(fl)),
                        None => None,
                    }
                }
            },
            _ => None,
        },
    }
}


pub open spec fn completion_of(o: OneOfV) -> Option<CompletionResultV> {
    match o {
        OneOfV::Unset => None,
        OneOfV::Empty => Some(CompletionResultV::Empty),
        OneOfV::Value(b) => Some(CompletionResultV::Success(b)),
        OneOfV::Failure(f) => Some(CompletionResultV::Failure(f)),
    }
}

/// A result of value or failure: `Some(None)` where unset, `None` where invalid.
pub open spec fn entry_result_of(o: OneOfV) -> Option<Option<EntryResultV>> {
    match o {
        OneOfV::Unset => Some(None),
        OneOfV::Empty => None,
        OneOfV::Value(b) => Some(Some(EntryResultV::Success(b))),
        OneOfV::Failure(f) => Some(Some(EntryResultV::Failure(f))),
    }
}

pub open spec fn sleep_result_of(o: OneOfV) -> Option<Option<SleepResultV>> {
    match o {
        OneOfV::Unset => Some(None),
        OneOfV::Empty => Some(Some(SleepResultV::Fired)),
        OneOfV::Value(_) => None,
        OneOfV::Failure(f) => Some(Some(SleepResultV::Failure(f))),
    }
}

pub open spec fn complete_result_of(o: OneOfV) -> Option<Option<CompleteResultV>> {
    match o {
        OneOfV::Unset => Some(None),
        OneOfV::Empty => Some(Some(CompleteResultV::Done)),
        OneOfV::Value(_) => None,
        OneOfV::Failure(f) => Some(Some(CompleteResultV::Failure(f))),
    }
}

pub open spec fn state_keys_result_of(o: OneOfV) -> Option<Option<GetStateKeysResultV>> {
    match o {
        OneOfV::Unset => Some(None),
        OneOfV::Empty => None,
        OneOfV::Value(b) => match spec_decode_state_keys(b) {
            Some(keys) => Some(Some(GetStateKeysResultV::Result(keys))),
            None => None,
        },
        OneOfV::Failure(f) => Some(Some(GetStateKeysResultV::Failure(f))),
    }
}

/// A result that the message must carry.
pub open spec fn required_result_of(o: OneOfV) -> Option<EntryResultV> {
    match entry_result_of(o) {
        Some(Some(r)) => Some(r),
        _ => None,
    }
}

/// The entry of kind `ty` that the fields of a message describe, or `None` where
/// a field cannot be read or a required field is missing.
pub open spec fn spec_decode_entry(ty: EntryType, fs: Seq<FieldV>) -> Option<EntryV> {
    match ty {
        EntryType::Input => match (
            spec_decode_headers(spec_all_of(fs, 1)),
            spec_bytes_of(spec_last_of(fs, 14, 0, 0)),
        ) {
            (Some(headers), Some(value)) => Some(EntryV::Input { headers, value }),
            _ => None,
        },
        EntryType::Output => match spec_one_of(fs, 0, 14, 15) {
            Some(o) => match required_result_of(o) {
                Some(result) => Some(EntryV::Output { result }),
                None => None,
            },
            None => None,
        },
        EntryType::GetState => match (spec_bytes_of(spec_last_of(fs, 1, 0, 0)), spec_one_of(fs, 13, 14, 15)) {
            (Some(key), Some(o)) => Some(EntryV::GetState { key, value: completion_of(o) }),
            _ => None,
        },
        EntryType::SetState => match (spec_bytes_of(spec_last_of(fs, 1, 0, 0)), spec_bytes_of(spec_last_of(fs, 3, 0, 0))) {
            (Some(key), Some(value)) => Some(EntryV::SetState { key, value }),
            _ => None,
        },
        EntryType::ClearState => match spec_bytes_of(spec_last_of(fs, 1, 0, 0)) {
            Some(key) => Some(EntryV::ClearState { key }),
            None => None,
        },
        EntryType::ClearAllState => Some(EntryV::ClearAllState),
        EntryType::GetStateKeys => match spec_one_of(fs, 0, 14, 15) {
            Some(o) => match state_keys_result_of(o) {
                Some(value) => Some(EntryV::GetStateKeys { value }),
                None => None,
            },
            None => None,
        },
        EntryType::GetPromise => match (spec_string_of(spec_last_of(fs, 1, 0, 0)), spec_one_of(fs, 0, 14, 15)) {
            (Some(key), Some(o)) => match entry_result_of(o) {
                Some(value) => Some(EntryV::GetPromise { key, value }),
                None => None,
            },
            _ => None,
        },
        EntryType::PeekPromise => match (spec_string_of(spec_last_of(fs, 1, 0, 0)), spec_one_of(fs, 13, 14, 15)) {
            (Some(key), Some(o)) => Some(EntryV::PeekPromise { key, value: completion_of(o) }),
            _ => None,
        },
        EntryType::CompletePromise => match (
            spec_string_of(spec_last_of(fs, 1, 0, 0)),
            spec_one_of(fs, 0, 2, 3),
            spec_one_of(fs, 13, 0, 15),
        ) {
            (Some(key), Some(c), Some(o)) => match (required_result_of(c), complete_result_of(o)) {
                (Some(completion), Some(value)) => Some(EntryV::CompletePromise { key, completion, value }),
                _ => None,
            },
            _ => None,
        },
        EntryType::Sleep => match (spec_varint_of(spec_last_of(fs, 1, 0, 0)), spec_one_of(fs, 13, 0, 15)) {
            (Some(t), Some(o)) => match sleep_result_of(o) {
                Some(result) => Some(EntryV::Sleep { wake_up_time: t as u64, result }),
                None => None,
            },
            _ => None,
        },
        EntryType::Call => match (spec_decode_request(fs, 4, 5), spec_one_of(fs, 0, 14, 15)) {
            (Some(request), Some(o)) => match entry_result_of(o) {
                Some(result) => Some(EntryV::Call { request, result }),
                None => None,
            },
            _ => None,
        },
        EntryType::OneWayCall => match (spec_decode_request(fs, 5, 6), spec_varint_of(spec_last_of(fs, 4, 0, 0))) {
            (Some(request), Some(t)) => Some(EntryV::OneWayCall { request, invoke_time: t as u64 }),
            _ => None,
        },
        EntryType::Awakeable => match spec_one_of(fs, 0, 14, 15) {
            Some(o) => match entry_result_of(o) {
                Some(result) => Some(EntryV::Awakeable { result }),
                None => None,
            },
            None => None,
        },
        EntryType::CompleteAwakeable => match (spec_string_of(spec_last_of(fs, 1, 0, 0)), spec_one_of(fs, 0, 5, 6)) {
            (Some(id), Some(o)) => match required_result_of(o) {
                Some(result) => Some(EntryV::CompleteAwakeable { id, result }),
                None => None,
            },
            _ => None,
        },
        EntryType::Run => match spec_one_of(fs, 0, 14, 15) {
            Some(o) => match required_result_of(o) {
                Some(result) => Some(EntryV::Run { result }),
                None => None,
            },
            None => None,
        },
        EntryType::Custom => None,
    }
}

/// The request part of a call message: service (1), handler (2), parameter (3),
/// headers and key at the given field numbers.
pub open spec fn spec_decode_request(fs: Seq<FieldV>, headers_n: nat, key_n: nat) -> Option<InvokeRequestV> {
    match (
        spec_string_of(spec_last_of(fs, 1, 0, 0)),
        spec_string_of(spec_last_of(fs, 2, 0, 0)),
        spec_bytes_of(spec_last_of(fs, 3, 0, 0)),
        spec_decode_headers(spec_all_of(fs, headers_n)),
        spec_string_of(spec_last_of(fs, key_n, 0, 0)),
    ) {
        (Some(service_name), Some(handler_name), Some(parameter), Some(headers), Some(key)) => Some(
            InvokeRequestV { service_name, handler_name, parameter, headers, key },
        ),
        _ => None,
    }
}

/// The entry of kind `ty` that a serialized entry message holds: a custom entry
/// holds its bytes as they are.
pub open spec fn spec_deserialize(ty: EntryType, b: Seq<u8>) -> Option<EntryV> {
    if ty == EntryType::Custom {
        Some(EntryV::Custom { value: b })
    } else {
        match spec_read_fields(b) {
            Some(fs) => spec_decode_entry(ty, fs),
            None => None,
        }
    }
}


fn completion_from(o: OneOf) -> (r: Option<CompletionResult>)
    ensures
        opt_view(r) == completion_of(o@),
{
    match o {
        OneOf::Unset => None,
        OneOf::Empty => Some(CompletionResult::Empty),
        OneOf::Value(b) => Some(CompletionResult::Success(b)),
        OneOf::Failure(f) => Some(CompletionResult::Failure(f)),
    }
}

fn entry_result_from(o: OneOf) -> (r: Option<Option<EntryResult>>)
    ensures
        match entry_result_of(o@) {
            Some(x) => r matches Some(y) && opt_view(y) == x,
            None => r is None,
        },
{
    match o {
        OneOf::Unset => Some(None),
        OneOf::Empty => None,
        OneOf::Value(b) => Some(Some(EntryResult::Success(b))),
        OneOf::Failure(f) => Some(Some(EntryResult::Failure(f))),
    }
}

fn required_result_from(o: OneOf) -> (r: Option<EntryResult>)
    ensures
        opt_view(r) == required_result_of(o@),
{
    match entry_result_from(o) {
        Some(Some(x)) => Some(x),
        _ => None,
    }
}

fn sleep_result_from(o: OneOf) -> (r: Option<Option<SleepResult>>)
    ensures
        match sleep_result_of(o@) {
            Some(x) => r matches Some(y) && opt_view(y) == x,
            None => r is None,
        },
{
    match o {
        OneOf::Unset => Some(None),
        OneOf::Empty => Some(Some(SleepResult::Fired)),
        OneOf::Value(_) => None,
        OneOf::Failure(f) => Some(Some(SleepResult::Failure(f))),
    }
}

fn complete_result_from(o: OneOf) -> (r: Option<Option<CompleteResult>>)
    ensures
        match complete_result_of(o@) {
            Some(x) => r matches Some(y) && opt_view(y) == x,
            None => r is None,
        },
{
    match o {
        OneOf::Unset => Some(None),
        OneOf::Empty => Some(Some(CompleteResult::Done)),
        OneOf::Value(_) => None,
        OneOf::Failure(f) => Some(Some(CompleteResult::Failure(f))),
    }
}

fn state_keys_result_from(o: OneOf) -> (r: Option<Option<GetStateKeysResult>>)
    ensures
        match state_keys_result_of(o@) {
            Some(x) => r matches Some(y) && opt_view(y) == x,
            None => r is None,
        },
{
    match o {
        OneOf::Unset => Some(None),
        OneOf::Empty => None,
        OneOf::Value(b) => match decode_state_keys(b.as_slice()) {
            Some(keys) => Some(Some(GetStateKeysResult::Result(keys))),
            None => None,
        },
        OneOf::Failure(f) => Some(Some(GetStateKeysResult::Failure(f))),
    }
}

fn decode_request(fs: &Vec<Field>, headers_n: u32, key_n: u32) -> (r: Option<InvokeRequest>)
    ensures
        opt_view(r) == spec_decode_request(fields_view(fs@), headers_n as nat, key_n as nat),
{
    let service_name = string_of(last_of(fs, 1, 0, 0));
    let handler_name = string_of(last_of(fs, 2, 0, 0));
    let parameter = bytes_of(last_of(fs, 3, 0, 0));
    let hs = all_of(fs, headers_n);
    let headers = decode_headers(&hs);
    let key = string_of(last_of(fs, key_n, 0, 0));
    match (service_name, handler_name, parameter, headers, key) {
        (Some(service_name), Some(handler_name), Some(parameter), Some(headers), Some(key)) => Some(
            InvokeRequest { service_name, handler_name, parameter, headers, key },
        ),
        _ => None,
    }
}

/// The entry of kind `ty` that the fields of a message describe.
pub fn decode_entry(ty: EntryType, fs: &Vec<Field>) -> (r: Option<Entry>)
    ensures
        opt_view(r) == spec_decode_entry(ty, fields_view(fs@)),
{
    match ty {
        EntryType::Input => {
            let hs = all_of(fs, 1);
            match (decode_headers(&hs), bytes_of(last_of(fs, 14, 0, 0))) {
                (Some(headers), Some(value)) => Some(Entry::Input { headers, value }),
                _ => None,
            }
        },
        EntryType::Output => match one_of(fs, 0, 14, 15) {
            Some(o) => match required_result_from(o) {
                Some(result) => Some(Entry::Output { result }),
                None => None,
            },
            None => None,
        },
        EntryType::GetState => match (bytes_of(last_of(fs, 1, 0, 0)), one_of(fs, 13, 14, 15)) {
            (Some(key), Some(o)) => Some(Entry::GetState { key, value: completion_from(o) }),
            _ => None,
        },
        EntryType::SetState => match (bytes_of(last_of(fs, 1, 0, 0)), bytes_of(last_of(fs, 3, 0, 0))) {
            (Some(key), Some(value)) => Some(Entry::SetState { key, value }),
            _ => None,
        },
        EntryType::ClearState => match bytes_of(last_of(fs, 1, 0, 0)) {
            Some(key) => Some(Entry::ClearState { key }),
            None => None,
        },
        EntryType::ClearAllState => Some(Entry::ClearAllState),
        EntryType::GetStateKeys => match one_of(fs, 0, 14, 15) {
            Some(o) => match state_keys_result_from(o) {
                Some(value) => Some(Entry::GetStateKeys { value }),
                None => None,
            },
            None => None,
        },
        EntryType::GetPromise => match (string_of(last_of(fs, 1, 0, 0)), one_of(fs, 0, 14, 15)) {
            (Some(key), Some(o)) => match entry_result_from(o) {
                Some(value) => Some(Entry::GetPromise { key, value }),
                None => None,
            },
            _ => None,
        },
        EntryType::PeekPromise => match (string_of(last_of(fs, 1, 0, 0)), one_of(fs, 13, 14, 15)) {
            (Some(key), Some(o)) => Some(Entry::PeekPromise { key, value: completion_from(o) }),
            _ => None,
        },
        EntryType::CompletePromise => match (string_of(last_of(fs, 1, 0, 0)), one_of(fs, 0, 2, 3), one_of(fs, 13, 0, 15)) {
            (Some(key), Some(c), Some(o)) => match (required_result_from(c), complete_result_from(o)) {
                (Some(completion), Some(value)) => Some(Entry::CompletePromise { key, completion, value }),
                _ => None,
            },
            _ => None,
        },
        EntryType::Sleep => match (varint_of(last_of(fs, 1, 0, 0)), one_of(fs, 13, 0, 15)) {
            (Some(t), Some(o)) => match sleep_result_from(o) {
                Some(result) => Some(Entry::Sleep { wake_up_time: t, result }),
                None => None,
            },
            _ => None,
        },
        EntryType::Call => match (decode_request(fs, 4, 5), one_of(fs, 0, 14, 15)) {
            (Some(request), Some(o)) => match entry_result_from(o) {
                Some(result) => Some(Entry::Call { request, result }),
                None => None,
            },
            _ => None,
        },
        EntryType::OneWayCall => match (decode_request(fs, 5, 6), varint_of(last_of(fs, 4, 0, 0))) {
            (Some(request), Some(t)) => Some(Entry::OneWayCall { request, invoke_time: t }),
            _ => None,
        },
        EntryType::Awakeable => match one_of(fs, 0, 14, 15) {
            Some(o) => match entry_result_from(o) {
                Some(result) => Some(Entry::Awakeable { result }),
                None => None,
            },
            None => None,
        },
        EntryType::CompleteAwakeable => match (string_of(last_of(fs, 1, 0, 0)), one_of(fs, 0, 5, 6)) {
            (Some(id), Some(o)) => match required_result_from(o) {
                Some(result) => Some(Entry::CompleteAwakeable { id, result }),
                None => None,
            },
            _ => None,
        },
        EntryType::Run => match one_of(fs, 0, 14, 15) {
            Some(o) => match required_result_from(o) {
                Some(result) => Some(Entry::Run { result }),
                None => None,
            },
            None => None,
        },
        EntryType::Custom => None,
    }
}


/// A bytes field, left out where the bytes are empty (the default value).
pub open spec fn bytes_field(n: nat, b: Seq<u8>) -> Seq<FieldV> {
    if b.len() == 0 {
        Seq::empty()
    } else {
        seq![FieldV { number: n, value: WireValueV::Bytes(b) }]
    }
}

/// A string field, left out where the text is empty.
pub open spec fn string_field(n: nat, s: Seq<char>) -> Seq<FieldV> {
    bytes_field(n, vstd::utf8::encode_utf8(s))
}

/// A varint field, left out where the value is zero.
pub open spec fn varint_field(n: nat, v: nat) -> Seq<FieldV> {
    if v == 0 {
        Seq::empty()
    } else {
        seq![FieldV { number: n, value: WireValueV::Varint(v) }]
    }
}

pub open spec fn failure_fields(f: FailureV) -> Seq<FieldV> {
    varint_field(1, f.code as nat) + string_field(2, f.message)
}

/// The encoding of a failure message.
pub open spec fn failure_bytes(f: FailureV) -> Seq<u8> {
    spec_encode_fields(failure_fields(f))
}

pub open spec fn header_fields(h: HeaderV) -> Seq<FieldV> {
    string_field(1, h.name) + string_field(2, h.value)
}

/// The encoding of a header message.
pub open spec fn header_bytes(h: HeaderV) -> Seq<u8> {
    spec_encode_fields(header_fields(h))
}

/// Repeated header fields numbered `n`.
pub open spec fn headers_fields(n: nat, hs: Seq<HeaderV>) -> Seq<FieldV>
    decreases hs.len(),
{
    if hs.len() == 0 {
        Seq::empty()
    } else {
        headers_fields(n, hs.drop_last()).push(FieldV { number: n, value: WireValueV::Bytes(header_bytes(hs.last())) })
    }
}

/// Repeated bytes fields numbered `n`; each element is written, empty or not.
pub open spec fn bytes_list_fields(n: nat, bs: Seq<Seq<u8>>) -> Seq<FieldV>
    decreases bs.len(),
{
    if bs.len() == 0 {
        Seq::empty()
    } else {
        bytes_list_fields(n, bs.drop_last()).push(FieldV { number: n, value: WireValueV::Bytes(bs.last()) })
    }
}

/// The encoding of a state keys message.
pub open spec fn state_keys_bytes(keys: Seq<Seq<u8>>) -> Seq<u8> {
    spec_encode_fields(bytes_list_fields(1, keys))
}

/// The fields of a group of alternatives; an unset group has none.
pub open spec fn one_of_fields(o: OneOfV, empty: nat, value: nat, failure: nat) -> Seq<FieldV> {
    match o {
        OneOfV::Unset => Seq::empty(),
        OneOfV::Empty => seq![FieldV { number: empty, value: WireValueV::Bytes(Seq::empty()) }],
        OneOfV::Value(b) => seq![FieldV { number: value, value: WireValueV::Bytes(b) }],
        OneOfV::Failure(f) => seq![FieldV { number: failure, value: WireValueV::Bytes(failure_bytes(f)) }],
    }
}

pub open spec fn completion_one_of(c: Option<CompletionResultV>) -> OneOfV {
    match c {
        None => OneOfV::Unset,
        Some(CompletionResultV::Empty) => OneOfV::Empty,
        Some(CompletionResultV::Success(b)) => OneOfV::Value(b),
        Some(CompletionResultV::Failure(f)) => OneOfV::Failure(f),
    }
}

pub open spec fn entry_result_one_of(c: Option<EntryResultV>) -> OneOfV {
    match c {
        None => OneOfV::Unset,
        Some(EntryResultV::Success(b)) => OneOfV::Value(b),
        Some(EntryResultV::Failure(f)) => OneOfV::Failure(f),
    }
}

pub open spec fn sleep_one_of(c: Option<SleepResultV>) -> OneOfV {
    match c {
        None => OneOfV::Unset,
        Some(SleepResultV::Fired) => OneOfV::Empty,
        Some(SleepResultV::Failure(f)) => OneOfV::Failure(f),
    }
}

pub open spec fn complete_one_of(c: Option<CompleteResultV>) -> OneOfV {
    match c {
        None => OneOfV::Unset,
        Some(CompleteResultV::Done) => OneOfV::Empty,
        Some(CompleteResultV::Failure(f)) => OneOfV::Failure(f),
    }
}

pub open spec fn state_keys_one_of(c: Option<GetStateKeysResultV>) -> OneOfV {
    match c {
        None => OneOfV::Unset,
        Some(GetStateKeysResultV::Result(keys)) => OneOfV::Value(state_keys_bytes(keys)),
        Some(GetStateKeysResultV::Failure(f)) => OneOfV::Failure(f),
    }
}

pub open spec fn request_fields(r: InvokeRequestV, extra: Seq<FieldV>, headers_n: nat, key_n: nat) -> Seq<FieldV> {
    string_field(1, r.service_name) + string_field(2, r.handler_name) + bytes_field(3, r.parameter) + extra
        + headers_fields(headers_n, r.headers) + string_field(key_n, r.key)
}

/// The fields of the message that carries entry `e` under the name `name`, in
/// the order of their numbers.
pub open spec fn spec_entry_fields(e: EntryV, name: Seq<char>) -> Seq<FieldV> {
    let nm = string_field(12, name);
    match e {
        EntryV::Input { headers, value } => headers_fields(1, headers) + nm + bytes_field(14, value),
        EntryV::Output { result } => nm + one_of_fields(entry_result_one_of(Some(result)), 0, 14, 15),
        EntryV::GetState { key, value } => bytes_field(1, key) + nm + one_of_fields(completion_one_of(value), 13, 14, 15),
        EntryV::SetState { key, value } => bytes_field(1, key) + bytes_field(3, value) + nm,
        EntryV::ClearState { key } => bytes_field(1, key) + nm,
        EntryV::GetStateKeys { value } => nm + one_of_fields(state_keys_one_of(value), 0, 14, 15),
        EntryV::ClearAllState => nm,
        EntryV::GetPromise { key, value } => string_field(1, key) + nm + one_of_fields(entry_result_one_of(value), 0, 14, 15),
        EntryV::PeekPromise { key, value } => string_field(1, key) + nm + one_of_fields(completion_one_of(value), 13, 14, 15),
        EntryV::CompletePromise { key, completion, value } => string_field(1, key)
            + one_of_fields(entry_result_one_of(Some(completion)), 0, 2, 3) + nm
            + one_of_fields(complete_one_of(value), 13, 0, 15),
        EntryV::Sleep { wake_up_time, result } => varint_field(1, wake_up_time as nat) + nm
            + one_of_fields(sleep_one_of(result), 13, 0, 15),
        EntryV::Call { request, result } => request_fields(request, Seq::empty(), 4, 5) + nm
            + one_of_fields(entry_result_one_of(result), 0, 14, 15),
        EntryV::OneWayCall { request, invoke_time } => request_fields(request, varint_field(4, invoke_time as nat), 5, 6)
            + nm,
        EntryV::Awakeable { result } => nm + one_of_fields(entry_result_one_of(result), 0, 14, 15),
        EntryV::CompleteAwakeable { id, result } => string_field(1, id)
            + one_of_fields(entry_result_one_of(Some(result)), 0, 5, 6) + nm,
        EntryV::Run { result } => nm + one_of_fields(entry_result_one_of(Some(result)), 0, 14, 15),
        EntryV::Custom { value } => Seq::empty(),
    }
}

/// The serialized message of entry `e` under the name `name`: the encoding of its
/// fields, or, for a custom entry, its bytes.
pub open spec fn spec_serialize_entry(e: EntryV, name: Seq<char>) -> Seq<u8> {
    match e {
        EntryV::Custom { value } => value,
        _ => spec_encode_fields(spec_entry_fields(e, name)),
    }
}


pub(crate) fn push_field(fs: &mut Vec<Field>, f: Field)
    requires
        valid_fields(fields_view(old(fs)@)),
        valid_field(f@),
    ensures
        fields_view(final(fs)@) == fields_view(old(fs)@).push(f@),
        valid_fields(fields_view(final(fs)@)),
{
    let ghost before = fields_view(fs@);
    fs.push(f);
    assert(fields_view(fs@) =~= before.push(f@));
}

pub(crate) fn push_bytes_field(fs: &mut Vec<Field>, n: u32, b: Vec<u8>)
    requires
        valid_fields(fields_view(old(fs)@)),
        1 <= n < 0x2000_0000,
    ensures
        fields_view(final(fs)@) == fields_view(old(fs)@) + bytes_field(n as nat, b@),
        valid_fields(fields_view(final(fs)@)),
{
    if b.len() == 0 {
        assert(fields_view(old(fs)@) + bytes_field(n as nat, b@) =~= fields_view(old(fs)@));
    } else {
        let ghost bv = b@;
        push_field(fs, Field { number: n, value: WireValue::Bytes(b) });
        assert(fields_view(old(fs)@).push(FieldV { number: n as nat, value: WireValueV::Bytes(bv) })
            =~= fields_view(old(fs)@) + bytes_field(n as nat, bv));
    }
}

pub(crate) fn push_always_bytes_field(fs: &mut Vec<Field>, n: u32, b: Vec<u8>)
    requires
        valid_fields(fields_view(old(fs)@)),
        1 <= n < 0x2000_0000,
    ensures
        fields_view(final(fs)@) == fields_view(old(fs)@).push(FieldV { number: n as nat, value: WireValueV::Bytes(b@) }),
        valid_fields(fields_view(final(fs)@)),
{
    assert(b.len() == b@.len());
    push_field(fs, Field { number: n, value: WireValue::Bytes(b) });
}

pub(crate) fn push_string_field(fs: &mut Vec<Field>, n: u32, s: &String)
    requires
        valid_fields(fields_view(old(fs)@)),
        1 <= n < 0x2000_0000,
    ensures
        fields_view(final(fs)@) == fields_view(old(fs)@) + string_field(n as nat, s@),
        valid_fields(fields_view(final(fs)@)),
        wf_str(s@),
{
    let b = string_bytes(s);
    assert(b@.len() == b.len());
    push_bytes_field(fs, n, b);
}

pub(crate) fn push_varint_field(fs: &mut Vec<Field>, n: u32, v: u64)
    requires
        valid_fields(fields_view(old(fs)@)),
        1 <= n < 0x2000_0000,
    ensures
        fields_view(final(fs)@) == fields_view(old(fs)@) + varint_field(n as nat, v as nat),
        valid_fields(fields_view(final(fs)@)),
{
    if v == 0 {
        assert(fields_view(old(fs)@) + varint_field(n as nat, v as nat) =~= fields_view(old(fs)@));
    } else {
        push_field(fs, Field { number: n, value: WireValue::Varint(v) });
        assert(fields_view(old(fs)@).push(FieldV { number: n as nat, value: WireValueV::Varint(v as nat) })
            =~= fields_view(old(fs)@) + varint_field(n as nat, v as nat));
    }
}

/// The encoding of a failure message.
pub fn failure_to_bytes(f: &Failure) -> (r: Vec<u8>)
    ensures
        r@ == failure_bytes(f@),
        wf_failure(f@),
{
    let mut fs: Vec<Field> = Vec::new();
    assert(fields_view(fs@) =~= Seq::<FieldV>::empty());
    push_varint_field(&mut fs, 1, f.code as u64);
    push_string_field(&mut fs, 2, &f.message);
    assert(fields_view(fs@) =~= failure_fields(f@));
    encode_fields(&fs)
}

/// The encoding of a header message.
pub fn header_to_bytes(h: &Header) -> (r: Vec<u8>)
    ensures
        r@ == header_bytes(header_view(*h)),
        wf_header(header_view(*h)),
{
    let mut fs: Vec<Field> = Vec::new();
    assert(fields_view(fs@) =~= Seq::<FieldV>::empty());
    push_string_field(&mut fs, 1, &h.name);
    push_string_field(&mut fs, 2, &h.value);
    assert(fields_view(fs@) =~= header_fields(header_view(*h)));
    encode_fields(&fs)
}

fn push_headers(fs: &mut Vec<Field>, n: u32, hs: &Vec<Header>)
    requires
        valid_fields(fields_view(old(fs)@)),
        1 <= n < 0x2000_0000,
    ensures
        fields_view(final(fs)@) == fields_view(old(fs)@) + headers_fields(n as nat, headers_view(hs@)),
        valid_fields(fields_view(final(fs)@)),
        wf_headers(headers_view(hs@)),
{
    let ghost hv = headers_view(hs@);
    let mut i: usize = 0;
    assert(hv.take(0) =~= Seq::<HeaderV>::empty());
    assert(fields_view(old(fs)@) + headers_fields(n as nat, hv.take(0)) =~= fields_view(old(fs)@));
    while i < hs.len()
        invariant
            i <= hs@.len(),
            hv == headers_view(hs@),
            1 <= n < 0x2000_0000,
            valid_fields(fields_view(fs@)),
            fields_view(fs@) == fields_view(old(fs)@) + headers_fields(n as nat, hv.take(i as int)),
            forall|j: int| 0 <= j < i ==> wf_header(#[trigger] hv[j]),
        decreases hs@.len() - i,
    {
        let b = header_to_bytes(&hs[i]);
        assert(hv[i as int] == header_view(hs@[i as int]));
        push_always_bytes_field(fs, n, b);
        assert(hv.take(i + 1).drop_last() =~= hv.take(i as int));
        assert(hv.take(i + 1).last() == header_view(hs@[i as int]));
        assert(fields_view(fs@) =~= fields_view(old(fs)@) + headers_fields(n as nat, hv.take(i + 1)));
        i = i + 1;
    }
    assert(hv.take(hs@.len() as int) =~= hv);
}

/// The encoding of a state keys message.
pub fn state_keys_to_bytes(keys: &Vec<Vec<u8>>) -> (r: Vec<u8>)
    ensures
        r@ == state_keys_bytes(bytes_list_view(keys@)),
{
    let ghost kv = bytes_list_view(keys@);
    let mut fs: Vec<Field> = Vec::new();
    let mut i: usize = 0;
    assert(kv.take(0) =~= Seq::<Seq<u8>>::empty());
    assert(fields_view(fs@) =~= bytes_list_fields(1, kv.take(0)));
    while i < keys.len()
        invariant
            i <= keys@.len(),
            kv == bytes_list_view(keys@),
            valid_fields(fields_view(fs@)),
            fields_view(fs@) == bytes_list_fields(1, kv.take(i as int)),
        decreases keys@.len() - i,
    {
        let b = copy_all(keys[i].as_slice());
        push_always_bytes_field(&mut fs, 1, b);
        assert(kv.take(i + 1).drop_last() =~= kv.take(i as int));
        assert(kv.take(i + 1).last() == keys@[i as int]@);
        i = i + 1;
    }
    assert(kv.take(keys@.len() as int) =~= kv);
    encode_fields(&fs)
}

fn push_one_of(fs: &mut Vec<Field>, o: &OneOf, empty: u32, value: u32, failure: u32)
    requires
        valid_fields(fields_view(old(fs)@)),
        1 <= empty < 0x2000_0000 || (empty == 0 && !(o@ is Empty)),
        1 <= value < 0x2000_0000 || (value == 0 && !(o@ is Value)),
        1 <= failure < 0x2000_0000,
    ensures
        fields_view(final(fs)@) == fields_view(old(fs)@) + one_of_fields(o@, empty as nat, value as nat, failure as nat),
        valid_fields(fields_view(final(fs)@)),
        wf_one_of(o@),
{
    match o {
        OneOf::Unset => {
            assert(fields_view(old(fs)@) + one_of_fields(o@, empty as nat, value as nat, failure as nat)
                =~= fields_view(old(fs)@));
        },
        OneOf::Empty => {
            push_always_bytes_field(fs, empty, Vec::new());
            assert(fields_view(fs@) =~= fields_view(old(fs)@) + one_of_fields(o@, empty as nat, value as nat, failure as nat));
        },
        OneOf::Value(b) => {
            push_always_bytes_field(fs, value, copy_all(b.as_slice()));
            assert(fields_view(fs@) =~= fields_view(old(fs)@) + one_of_fields(o@, empty as nat, value as nat, failure as nat));
        },
        OneOf::Failure(f) => {
            push_always_bytes_field(fs, failure, failure_to_bytes(f));
            assert(fields_view(fs@) =~= fields_view(old(fs)@) + one_of_fields(o@, empty as nat, value as nat, failure as nat));
        },
    }
}


fn completion_to_one_of(c: &Option<CompletionResult>) -> (r: OneOf)
    ensures
        r@ == completion_one_of(opt_view(*c)),
{
    match c {
        None => OneOf::Unset,
        Some(CompletionResult::Empty) => OneOf::Empty,
        Some(CompletionResult::Success(b)) => OneOf::Value(copy_all(b.as_slice())),
        Some(CompletionResult::Failure(f)) => OneOf::Failure(Failure { code: f.code, message: f.message.clone() }),
    }
}

fn entry_result_to_one_of(c: &Option<EntryResult>) -> (r: OneOf)
    ensures
        r@ == entry_result_one_of(opt_view(*c)),
{
    match c {
        None => OneOf::Unset,
        Some(EntryResult::Success(b)) => OneOf::Value(copy_all(b.as_slice())),
        Some(EntryResult::Failure(f)) => OneOf::Failure(Failure { code: f.code, message: f.message.clone() }),
    }
}

fn required_to_one_of(c: &EntryResult) -> (r: OneOf)
    ensures
        r@ == entry_result_one_of(Some(c@)),
{
    match c {
        EntryResult::Success(b) => OneOf::Value(copy_all(b.as_slice())),
        EntryResult::Failure(f) => OneOf::Failure(Failure { code: f.code, message: f.message.clone() }),
    }
}

fn sleep_to_one_of(c: &Option<SleepResult>) -> (r: OneOf)
    ensures
        r@ == sleep_one_of(opt_view(*c)),
{
    match c {
        None => OneOf::Unset,
        Some(SleepResult::Fired) => OneOf::Empty,
        Some(SleepResult::Failure(f)) => OneOf::Failure(Failure { code: f.code, message: f.message.clone() }),
    }
}

fn complete_to_one_of(c: &Option<CompleteResult>) -> (r: OneOf)
    ensures
        r@ == complete_one_of(opt_view(*c)),
{
    match c {
        None => OneOf::Unset,
        Some(CompleteResult::Done) => OneOf::Empty,
        Some(CompleteResult::Failure(f)) => OneOf::Failure(Failure { code: f.code, message: f.message.clone() }),
    }
}

fn state_keys_to_one_of(c: &Option<GetStateKeysResult>) -> (r: OneOf)
    ensures
        r@ == state_keys_one_of(opt_view(*c)),
{
    match c {
        None => OneOf::Unset,
        Some(GetStateKeysResult::Result(keys)) => OneOf::Value(state_keys_to_bytes(keys)),
        Some(GetStateKeysResult::Failure(f)) => OneOf::Failure(Failure { code: f.code, message: f.message.clone() }),
    }
}

#[verifier::spinoff_prover]
#[verifier::rlimit(40)]
fn push_request(fs: &mut Vec<Field>, r: &InvokeRequest, extra: Option<u64>, headers_n: u32, key_n: u32)
    requires
        valid_fields(fields_view(old(fs)@)),
        4 <= headers_n <= 5,
        5 <= key_n <= 6,
    ensures
        fields_view(final(fs)@) == fields_view(old(fs)@) + request_fields(
            r@,
            match extra {
                Some(t) => varint_field(4, t as nat),
                None => Seq::empty(),
            },
            headers_n as nat,
            key_n as nat,
        ),
        valid_fields(fields_view(final(fs)@)),
{
    let ghost start = fields_view(fs@);
    push_string_field(fs, 1, &r.service_name);
    push_string_field(fs, 2, &r.handler_name);
    push_bytes_field(fs, 3, copy_all(r.parameter.as_slice()));
    match extra {
        Some(t) => push_varint_field(fs, 4, t),
        None => {},
    }
    push_headers(fs, headers_n, &r.headers);
    push_string_field(fs, key_n, &r.key);
    assert(fields_view(fs@) =~= start + request_fields(
        r@,
        match extra {
            Some(t) => varint_field(4, t as nat),
            None => Seq::empty(),
        },
        headers_n as nat,
        key_n as nat,
    ));
}

/// The fields of the message that carries `e` under the name `name`.
#[verifier::spinoff_prover]
#[verifier::rlimit(40)]
pub fn entry_fields(e: &Entry, name: &String) -> (r: Vec<Field>)
    ensures
        fields_view(r@) == spec_entry_fields(e@, name@),
        valid_fields(fields_view(r@)),
        e@ is Input ==> wf_entry(e@),
{
    let mut fs: Vec<Field> = Vec::new();
    assert(fields_view(fs@) =~= Seq::<FieldV>::empty());
    match e {
        Entry::Input { headers, value } => {
            push_headers(&mut fs, 1, headers);
            push_string_field(&mut fs, 12, name);
            push_bytes_field(&mut fs, 14, copy_all(value.as_slice()));
        },
        Entry::Output { result } => {
            push_string_field(&mut fs, 12, name);
            push_one_of(&mut fs, &required_to_one_of(result), 0, 14, 15);
        },
        Entry::GetState { key, value } => {
            push_bytes_field(&mut fs, 1, copy_all(key.as_slice()));
            push_string_field(&mut fs, 12, name);
            push_one_of(&mut fs, &completion_to_one_of(value), 13, 14, 15);
        },
        Entry::SetState { key, value } => {
            push_bytes_field(&mut fs, 1, copy_all(key.as_slice()));
            push_bytes_field(&mut fs, 3, copy_all(value.as_slice()));
            push_string_field(&mut fs, 12, name);
        },
        Entry::ClearState { key } => {
            push_bytes_field(&mut fs, 1, copy_all(key.as_slice()));
            push_string_field(&mut fs, 12, name);
        },
        Entry::GetStateKeys { value } => {
            push_string_field(&mut fs, 12, name);
            push_one_of(&mut fs, &state_keys_to_one_of(value), 0, 14, 15);
        },
        Entry::ClearAllState => {
            push_string_field(&mut fs, 12, name);
        },
        Entry::GetPromise { key, value } => {
            push_string_field(&mut fs, 1, key);
            push_string_field(&mut fs, 12, name);
            push_one_of(&mut fs, &entry_result_to_one_of(value), 0, 14, 15);
        },
        Entry::PeekPromise { key, value } => {
            push_string_field(&mut fs, 1, key);
            push_string_field(&mut fs, 12, name);
            push_one_of(&mut fs, &completion_to_one_of(value), 13, 14, 15);
        },
        Entry::CompletePromise { key, completion, value } => {
            push_string_field(&mut fs, 1, key);
            push_one_of(&mut fs, &required_to_one_of(completion), 0, 2, 3);
            push_string_field(&mut fs, 12, name);
            push_one_of(&mut fs, &complete_to_one_of(value), 13, 0, 15);
        },
        Entry::Sleep { wake_up_time, result } => {
            push_varint_field(&mut fs, 1, *wake_up_time);
            push_string_field(&mut fs, 12, name);
            push_one_of(&mut fs, &sleep_to_one_of(result), 13, 0, 15);
        },
        Entry::Call { request, result } => {
            push_request(&mut fs, request, None, 4, 5);
            push_string_field(&mut fs, 12, name);
            push_one_of(&mut fs, &entry_result_to_one_of(result), 0, 14, 15);
        },
        Entry::OneWayCall { request, invoke_time } => {
            push_request(&mut fs, request, Some(*invoke_time), 5, 6);
            push_string_field(&mut fs, 12, name);
        },
        Entry::Awakeable { result } => {
            push_string_field(&mut fs, 12, name);
            push_one_of(&mut fs, &entry_result_to_one_of(result), 0, 14, 15);
        },
        Entry::CompleteAwakeable { id, result } => {
            push_string_field(&mut fs, 1, id);
            push_one_of(&mut fs, &required_to_one_of(result), 0, 5, 6);
            push_string_field(&mut fs, 12, name);
        },
        Entry::Run { result } => {
            push_string_field(&mut fs, 12, name);
            push_one_of(&mut fs, &required_to_one_of(result), 0, 14, 15);
        },
        Entry::Custom { .. } => {},
    }
    assert(fields_view(fs@) =~= spec_entry_fields(e@, name@));
    fs
}

/// The serialized message of `e` under the name `name`.
pub fn serialize_entry(e: &Entry, name: &String) -> (r: Vec<u8>)
    ensures
        r@ == spec_serialize_entry(e@, name@),
{
    match e {
        Entry::Custom { value } => copy_all(value.as_slice()),
        _ => {
            let fs = entry_fields(e, name);
            encode_fields(&fs)
        },
    }
}


pub open spec fn in3(n: nat, a: nat, b: nat, c: nat) -> bool {
    n == a || n == b || n == c
}

/// No field of `fs` is numbered `a`, `b` or `c`.
pub open spec fn none_of(fs: Seq<FieldV>, a: nat, b: nat, c: nat) -> bool {
    forall|i: int| 0 <= i < fs.len() ==> !in3(#[trigger] fs[i].number, a, b, c)
}

/// The last field of a concatenation: from the second part where it has one.
pub proof fn lemma_last_of_append(x: Seq<FieldV>, y: Seq<FieldV>, a: nat, b: nat, c: nat)
    ensures
        spec_last_of(x + y, a, b, c) == match spec_last_of(y, a, b, c) {
            Some(f) => Some(f),
            None => spec_last_of(x, a, b, c),
        },
    decreases y.len(),
{
    if y.len() == 0 {
        assert(x + y =~= x);
    } else {
        assert((x + y).drop_last() =~= x + y.drop_last());
        assert((x + y).last() == y.last());
        lemma_last_of_append(x, y.drop_last(), a, b, c);
    }
}

proof fn lemma_last_of_none(fs: Seq<FieldV>, a: nat, b: nat, c: nat)
    requires
        none_of(fs, a, b, c),
    ensures
        spec_last_of(fs, a, b, c) is None,
    decreases fs.len(),
{
    if fs.len() > 0 {
        assert(!in3(fs[fs.len() - 1].number, a, b, c));
        assert forall|i: int| 0 <= i < fs.drop_last().len() implies !in3(#[trigger] fs.drop_last()[i].number, a, b, c) by {
            assert(fs.drop_last()[i] == fs[i]);
        }
        lemma_last_of_none(fs.drop_last(), a, b, c);
    }
}

/// The fields numbered `n` of a concatenation.
pub proof fn lemma_all_of_append(x: Seq<FieldV>, y: Seq<FieldV>, n: nat)
    ensures
        spec_all_of(x + y, n) == spec_all_of(x, n) + spec_all_of(y, n),
    decreases y.len(),
{
    if y.len() == 0 {
        assert(x + y =~= x);
        assert(spec_all_of(x, n) + Seq::<FieldV>::empty() =~= spec_all_of(x, n));
    } else {
        assert((x + y).drop_last() =~= x + y.drop_last());
        assert((x + y).last() == y.last());
        lemma_all_of_append(x, y.drop_last(), n);
        if y.last().number == n {
            assert(spec_all_of(x, n) + spec_all_of(y.drop_last(), n).push(y.last())
                =~= (spec_all_of(x, n) + spec_all_of(y.drop_last(), n)).push(y.last()));
        }
    }
}

proof fn lemma_all_of_none(fs: Seq<FieldV>, n: nat)
    requires
        none_of(fs, n, n, n),
    ensures
        spec_all_of(fs, n) == Seq::<FieldV>::empty(),
    decreases fs.len(),
{
    if fs.len() > 0 {
        assert(!in3(fs[fs.len() - 1].number, n, n, n));
        assert forall|i: int| 0 <= i < fs.drop_last().len() implies !in3(#[trigger] fs.drop_last()[i].number, n, n, n) by {
            assert(fs.drop_last()[i] == fs[i]);
        }
        lemma_all_of_none(fs.drop_last(), n);
    }
}


pub open spec fn wf_bytes(b: Seq<u8>) -> bool {
    b.len() < varint_limit()
}

pub open spec fn wf_str(s: Seq<char>) -> bool {
    vstd::utf8::encode_utf8(s).len() < varint_limit()
}

pub open spec fn wf_failure(f: FailureV) -> bool {
    wf_str(f.message)
}

pub open spec fn wf_header(h: HeaderV) -> bool {
    wf_str(h.name) && wf_str(h.value)
}

pub open spec fn wf_headers(hs: Seq<HeaderV>) -> bool {
    forall|i: int| 0 <= i < hs.len() ==> wf_header(#[trigger] hs[i])
}

pub open spec fn wf_keys(ks: Seq<Seq<u8>>) -> bool {
    forall|i: int| 0 <= i < ks.len() ==> wf_bytes(#[trigger] ks[i])
}

pub open spec fn wf_one_of(o: OneOfV) -> bool {
    match o {
        OneOfV::Failure(f) => wf_failure(f),
        _ => true,
    }
}

/// Fields the wire format carries, put one after the other, still are.
pub proof fn lemma_valid_fields_append(x: Seq<FieldV>, y: Seq<FieldV>)
    requires
        valid_fields(x),
        valid_fields(y),
    ensures
        valid_fields(x + y),
{
    assert forall|i: int| 0 <= i < (x + y).len() implies valid_field(#[trigger] (x + y)[i]) by {
        if i < x.len() {
            assert((x + y)[i] == x[i]);
        } else {
            assert((x + y)[i] == y[i - x.len()]);
        }
    }
}

/// A bytes field is one the wire format carries where its number and its
/// length are in range.
pub proof fn lemma_bytes_field_valid(n: nat, b: Seq<u8>)
    requires
        1 <= n < field_number_limit(),
        wf_bytes(b),
    ensures
        valid_fields(bytes_field(n, b)),
{
}

/// A string field is one the wire format carries where its number and the
/// length of its UTF-8 text are in range.
pub proof fn lemma_string_field_valid(n: nat, s: Seq<char>)
    requires
        1 <= n < field_number_limit(),
        wf_str(s),
    ensures
        valid_fields(string_field(n, s)),
{
    lemma_bytes_field_valid(n, vstd::utf8::encode_utf8(s));
}

/// Reading back a bytes field written by `bytes_field`.
proof fn lemma_bytes_of_bytes_field(n: nat, b: Seq<u8>)
    ensures
        spec_bytes_of(spec_last_of(bytes_field(n, b), n, 0, 0)) == Some(b),
{
    if b.len() == 0 {
        assert(b =~= Seq::<u8>::empty());
    } else {
        reveal_with_fuel(spec_last_of, 2);
    }
}

proof fn lemma_string_of_string_field(n: nat, s: Seq<char>)
    ensures
        spec_string_of(spec_last_of(string_field(n, s), n, 0, 0)) == Some(s),
{
    lemma_bytes_of_bytes_field(n, vstd::utf8::encode_utf8(s));
    vstd::utf8::encode_utf8_valid_utf8(s);
    vstd::utf8::encode_utf8_decode_utf8(s);
}

proof fn lemma_varint_of_varint_field(n: nat, v: nat)
    ensures
        spec_varint_of(spec_last_of(varint_field(n, v), n, 0, 0)) == Some(v),
{
    reveal_with_fuel(spec_last_of, 2);
}

/// A failure message reads back as the failure it encodes.
pub proof fn lemma_failure_round_trip(f: FailureV)
    requires
        wf_failure(f),
    ensures
        spec_decode_failure(failure_bytes(f)) == Some(f),
{
    let a = varint_field(1, f.code as nat);
    let b = string_field(2, f.message);
    lemma_valid_fields_append(a, b);
    lemma_fields_round_trip(a + b);
    lemma_last_of_append(a, b, 1, 0, 0);
    lemma_last_of_append(a, b, 2, 0, 0);
    reveal_with_fuel(spec_last_of, 2);
    lemma_varint_of_varint_field(1, f.code as nat);
    lemma_string_of_string_field(2, f.message);
}

/// A header message reads back as the header it encodes.
pub proof fn lemma_header_round_trip(h: HeaderV)
    requires
        wf_header(h),
    ensures
        spec_decode_header(header_bytes(h)) == Some(h),
{
    let a = string_field(1, h.name);
    let b = string_field(2, h.value);
    lemma_valid_fields_append(a, b);
    lemma_fields_round_trip(a + b);
    lemma_last_of_append(a, b, 1, 0, 0);
    lemma_last_of_append(a, b, 2, 0, 0);
    reveal_with_fuel(spec_last_of, 2);
    lemma_string_of_string_field(1, h.name);
    lemma_string_of_string_field(2, h.value);
}

proof fn lemma_headers_fields_numbers(n: nat, hs: Seq<HeaderV>)
    ensures
        spec_all_of(headers_fields(n, hs), n) == headers_fields(n, hs),
    decreases hs.len(),
{
    let fs = headers_fields(n, hs);
    if hs.len() > 0 {
        lemma_headers_fields_numbers(n, hs.drop_last());
        assert(fs.drop_last() =~= headers_fields(n, hs.drop_last()));
    }
}

proof fn lemma_none_of_headers(n: nat, hs: Seq<HeaderV>, a: nat, b: nat, c: nat)
    requires
        !in3(n, a, b, c),
    ensures
        none_of(headers_fields(n, hs), a, b, c),
{
    let fs = headers_fields(n, hs);
    assert forall|i: int| 0 <= i < fs.len() implies !in3(#[trigger] fs[i].number, a, b, c) by {
        lemma_headers_fields_index(n, hs, i);
    }
}

proof fn lemma_headers_fields_index(n: nat, hs: Seq<HeaderV>, i: int)
    requires
        0 <= i < headers_fields(n, hs).len(),
    ensures
        headers_fields(n, hs).len() == hs.len(),
        headers_fields(n, hs)[i] == (FieldV { number: n, value: WireValueV::Bytes(header_bytes(hs[i])) }),
    decreases hs.len(),
{
    lemma_headers_fields_len(n, hs);
    if i < hs.len() - 1 {
        lemma_headers_fields_index(n, hs.drop_last(), i);
    }
}

proof fn lemma_headers_fields_len(n: nat, hs: Seq<HeaderV>)
    ensures
        headers_fields(n, hs).len() == hs.len(),
    decreases hs.len(),
{
    if hs.len() > 0 {
        lemma_headers_fields_len(n, hs.drop_last());
    }
}

/// Repeated header fields read back as the headers they encode.
pub proof fn lemma_headers_round_trip(n: nat, hs: Seq<HeaderV>)
    requires
        wf_headers(hs),
    ensures
        spec_decode_headers(headers_fields(n, hs)) == Some(hs),
    decreases hs.len(),
{
    if hs.len() > 0 {
        assert(wf_headers(hs.drop_last())) by {
            assert forall|i: int| 0 <= i < hs.drop_last().len() implies wf_header(#[trigger] hs.drop_last()[i]) by {
                assert(hs.drop_last()[i] == hs[i]);
            }
        }
        lemma_headers_round_trip(n, hs.drop_last());
        assert(wf_header(hs[hs.len() - 1]));
        lemma_header_round_trip(hs.last());
        let fs = headers_fields(n, hs);
        assert(fs.drop_last() =~= headers_fields(n, hs.drop_last()));
        assert(fs.last() == (FieldV { number: n, value: WireValueV::Bytes(header_bytes(hs.last())) }));
        assert(hs.drop_last().push(hs.last()) =~= hs);
    } else {
        assert(hs =~= Seq::<HeaderV>::empty());
    }
}

proof fn lemma_bytes_list_fields_index(n: nat, bs: Seq<Seq<u8>>, i: int)
    requires
        0 <= i < bs.len(),
    ensures
        bytes_list_fields(n, bs).len() == bs.len(),
        bytes_list_fields(n, bs)[i] == (FieldV { number: n, value: WireValueV::Bytes(bs[i]) }),
    decreases bs.len(),
{
    lemma_bytes_list_fields_len(n, bs);
    if i < bs.len() - 1 {
        lemma_bytes_list_fields_index(n, bs.drop_last(), i);
    }
}

proof fn lemma_bytes_list_fields_len(n: nat, bs: Seq<Seq<u8>>)
    ensures
        bytes_list_fields(n, bs).len() == bs.len(),
    decreases bs.len(),
{
    if bs.len() > 0 {
        lemma_bytes_list_fields_len(n, bs.drop_last());
    }
}

proof fn lemma_bytes_list_round_trip(n: nat, bs: Seq<Seq<u8>>)
    ensures
        spec_all_of(bytes_list_fields(n, bs), n) == bytes_list_fields(n, bs),
        spec_decode_bytes_list(bytes_list_fields(n, bs)) == Some(bs),
    decreases bs.len(),
{
    if bs.len() > 0 {
        lemma_bytes_list_round_trip(n, bs.drop_last());
        assert(bytes_list_fields(n, bs).drop_last() =~= bytes_list_fields(n, bs.drop_last()));
        assert(bs.drop_last().push(bs.last()) =~= bs);
    }
}

/// A state keys message reads back as the keys it encodes.
pub proof fn lemma_state_keys_round_trip(ks: Seq<Seq<u8>>)
    requires
        wf_keys(ks),
    ensures
        spec_decode_state_keys(state_keys_bytes(ks)) == Some(ks),
{
    let fs = bytes_list_fields(1, ks);
    assert(valid_fields(fs)) by {
        assert forall|i: int| 0 <= i < fs.len() implies valid_field(#[trigger] fs[i]) by {
            lemma_bytes_list_fields_len(1, ks);
            lemma_bytes_list_fields_index(1, ks, i);
            assert(wf_bytes(ks[i]));
        }
    }
    lemma_fields_round_trip(fs);
    lemma_bytes_list_round_trip(1, ks);
}

/// The group of alternatives written by `one_of_fields`, surrounded by fields
/// of other numbers, reads back as what was written.
pub proof fn lemma_one_of_round_trip(x: Seq<FieldV>, o: OneOfV, y: Seq<FieldV>, e: nat, v: nat, f: nat)
    requires
        none_of(x, e, v, f),
        none_of(y, e, v, f),
        wf_one_of(o),
        o is Empty ==> e != v && e != f,
        o is Value ==> v != e && v != f,
        o is Failure ==> f != e && f != v,
    ensures
        spec_one_of(x + one_of_fields(o, e, v, f) + y, e, v, f) == Some(o),
{
    let m = one_of_fields(o, e, v, f);
    lemma_last_of_append(x + m, y, e, v, f);
    lemma_last_of_append(x, m, e, v, f);
    lemma_last_of_none(x, e, v, f);
    lemma_last_of_none(y, e, v, f);
    reveal_with_fuel(spec_last_of, 2);
    match o {
        OneOfV::Empty => {
            assert(spec_read_fields(Seq::<u8>::empty()) is Some);
        },
        OneOfV::Failure(fl) => {
            lemma_failure_round_trip(fl);
        },
        _ => {},
    }
}


proof fn lemma_none_of_append(x: Seq<FieldV>, y: Seq<FieldV>, a: nat, b: nat, c: nat)
    requires
        none_of(x, a, b, c),
        none_of(y, a, b, c),
    ensures
        none_of(x + y, a, b, c),
{
    assert forall|i: int| 0 <= i < (x + y).len() implies !in3(#[trigger] (x + y)[i].number, a, b, c) by {
        if i < x.len() {
            assert((x + y)[i] == x[i]);
        } else {
            assert((x + y)[i] == y[i - x.len()]);
        }
    }
}

/// Selecting from `x + m + y` where `x` and `y` hold no field of the numbers.
proof fn lemma_select(x: Seq<FieldV>, m: Seq<FieldV>, y: Seq<FieldV>, a: nat, b: nat, c: nat)
    requires
        none_of(x, a, b, c),
        none_of(y, a, b, c),
    ensures
        spec_last_of(x + m + y, a, b, c) == spec_last_of(m, a, b, c),
{
    lemma_last_of_append(x + m, y, a, b, c);
    lemma_last_of_append(x, m, a, b, c);
    lemma_last_of_none(x, a, b, c);
    lemma_last_of_none(y, a, b, c);
}

/// Collecting from `x + m + y` where `x` and `y` hold no field numbered `n`.
proof fn lemma_collect(x: Seq<FieldV>, m: Seq<FieldV>, y: Seq<FieldV>, n: nat)
    requires
        none_of(x, n, n, n),
        none_of(y, n, n, n),
    ensures
        spec_all_of(x + m + y, n) == spec_all_of(m, n),
{
    lemma_all_of_append(x + m, y, n);
    lemma_all_of_append(x, m, n);
    lemma_all_of_none(x, n);
    lemma_all_of_none(y, n);
    assert(Seq::<FieldV>::empty() + spec_all_of(m, n) + Seq::<FieldV>::empty() =~= spec_all_of(m, n));
}

proof fn lemma_none_of_bytes_field(n: nat, bs: Seq<u8>, a: nat, b: nat, c: nat)
    requires
        !in3(n, a, b, c),
    ensures
        none_of(bytes_field(n, bs), a, b, c),
{
}

proof fn lemma_none_of_string_field(n: nat, s: Seq<char>, a: nat, b: nat, c: nat)
    requires
        !in3(n, a, b, c),
    ensures
        none_of(string_field(n, s), a, b, c),
{
}

proof fn lemma_none_of_varint_field(n: nat, v: nat, a: nat, b: nat, c: nat)
    requires
        !in3(n, a, b, c),
    ensures
        none_of(varint_field(n, v), a, b, c),
{
}

proof fn lemma_none_of_one_of(o: OneOfV, e: nat, v: nat, f: nat, a: nat, b: nat, c: nat)
    requires
        o is Empty ==> !in3(e, a, b, c),
        o is Value ==> !in3(v, a, b, c),
        o is Failure ==> !in3(f, a, b, c),
    ensures
        none_of(one_of_fields(o, e, v, f), a, b, c),
{
}

proof fn lemma_none_of_empty(a: nat, b: nat, c: nat)
    ensures
        none_of(Seq::<FieldV>::empty(), a, b, c),
{
}


pub open spec fn wf_entry_result(r: EntryResultV) -> bool {
    match r {
        EntryResultV::Failure(f) => wf_failure(f),
        _ => true,
    }
}

pub open spec fn wf_opt_entry_result(r: Option<EntryResultV>) -> bool {
    match r {
        Some(x) => wf_entry_result(x),
        None => true,
    }
}

/// The texts, byte strings and nested messages of an entry are small enough
/// for the wire format to carry.
pub open spec fn wf_entry(e: EntryV) -> bool {
    match e {
        EntryV::Input { headers, .. } => wf_headers(headers),
        EntryV::Output { result } => wf_entry_result(result),
        EntryV::GetState { value, .. } => wf_one_of(completion_one_of(value)),
        EntryV::GetStateKeys { value } => match value {
            Some(GetStateKeysResultV::Result(keys)) => wf_keys(keys),
            Some(GetStateKeysResultV::Failure(f)) => wf_failure(f),
            None => true,
        },
        EntryV::GetPromise { value, .. } => wf_opt_entry_result(value),
        EntryV::PeekPromise { value, .. } => wf_one_of(completion_one_of(value)),
        EntryV::CompletePromise { completion, value, .. } => wf_entry_result(completion) && wf_one_of(
            complete_one_of(value),
        ),
        EntryV::Sleep { result, .. } => wf_one_of(sleep_one_of(result)),
        EntryV::Call { request, result } => wf_headers(request.headers) && wf_opt_entry_result(result),
        EntryV::OneWayCall { request, .. } => wf_headers(request.headers),
        EntryV::Awakeable { result } => wf_opt_entry_result(result),
        EntryV::CompleteAwakeable { result, .. } => wf_entry_result(result),
        EntryV::Run { result } => wf_entry_result(result),
        _ => true,
    }
}

proof fn lemma_request_rt_service(r: InvokeRequestV, extra: Seq<FieldV>, hn: nat, kn: nat, tail: Seq<FieldV>)
    requires
        (hn == 4 && kn == 5 && extra == Seq::<FieldV>::empty()) || (hn == 5 && kn == 6 && exists|t: nat|
            extra == varint_field(4, t)),
        none_of(tail, 1, 0, 0),
        none_of(tail, 2, 0, 0),
        none_of(tail, 3, 0, 0),
        none_of(tail, hn, hn, hn),
        none_of(tail, kn, 0, 0),
    ensures
        spec_string_of(spec_last_of(request_fields(r, extra, hn, kn) + tail, 1, 0, 0)) == Some(r.service_name),
{
    let s1 = string_field(1, r.service_name);
    let s2 = string_field(2, r.handler_name);
    let p = bytes_field(3, r.parameter);
    let h = headers_fields(hn, r.headers);
    let k = string_field(kn, r.key);
    let fs = request_fields(r, extra, hn, kn) + tail;
    let e = Seq::<FieldV>::empty();
    if hn == 5 {
        let t = choose|t: nat| extra == varint_field(4, t);
        lemma_none_of_varint_field(4, t, 1, 0, 0);
    }
    lemma_none_of_headers(hn, r.headers, 1, 0, 0);
    lemma_none_of_string_field(2, r.handler_name, 1, 0, 0);
    lemma_none_of_bytes_field(3, r.parameter, 1, 0, 0);
    lemma_none_of_string_field(kn, r.key, 1, 0, 0);
    lemma_none_of_append(s2, p, 1, 0, 0);
    lemma_none_of_append(s2 + p, extra, 1, 0, 0);
    lemma_none_of_append(s2 + p + extra, h, 1, 0, 0);
    lemma_none_of_append(s2 + p + extra + h, k, 1, 0, 0);
    lemma_none_of_append(s2 + p + extra + h + k, tail, 1, 0, 0);
    lemma_none_of_empty(1, 0, 0);
    assert(fs =~= e + s1 + (s2 + p + extra + h + k + tail));
    lemma_select(e, s1, s2 + p + extra + h + k + tail, 1, 0, 0);
    assert(e + s1 =~= s1);
    lemma_string_of_string_field(1, r.service_name);
}

proof fn lemma_request_rt_handler(r: InvokeRequestV, extra: Seq<FieldV>, hn: nat, kn: nat, tail: Seq<FieldV>)
    requires
        (hn == 4 && kn == 5 && extra == Seq::<FieldV>::empty()) || (hn == 5 && kn == 6 && exists|t: nat|
            extra == varint_field(4, t)),
        none_of(tail, 1, 0, 0),
        none_of(tail, 2, 0, 0),
        none_of(tail, 3, 0, 0),
        none_of(tail, hn, hn, hn),
        none_of(tail, kn, 0, 0),
    ensures
        spec_string_of(spec_last_of(request_fields(r, extra, hn, kn) + tail, 2, 0, 0)) == Some(r.handler_name),
{
    let s1 = string_field(1, r.service_name);
    let s2 = string_field(2, r.handler_name);
    let p = bytes_field(3, r.parameter);
    let h = headers_fields(hn, r.headers);
    let k = string_field(kn, r.key);
    let fs = request_fields(r, extra, hn, kn) + tail;
    let e = Seq::<FieldV>::empty();
    if hn == 5 {
        let t = choose|t: nat| extra == varint_field(4, t);
        lemma_none_of_varint_field(4, t, 2, 0, 0);
    }
    lemma_none_of_headers(hn, r.headers, 2, 0, 0);
    lemma_none_of_string_field(1, r.service_name, 2, 0, 0);
    lemma_none_of_bytes_field(3, r.parameter, 2, 0, 0);
    lemma_none_of_string_field(kn, r.key, 2, 0, 0);
    lemma_none_of_append(p, extra, 2, 0, 0);
    lemma_none_of_append(p + extra, h, 2, 0, 0);
    lemma_none_of_append(p + extra + h, k, 2, 0, 0);
    lemma_none_of_append(p + extra + h + k, tail, 2, 0, 0);
    assert(fs =~= s1 + s2 + (p + extra + h + k + tail));
    lemma_select(s1, s2, p + extra + h + k + tail, 2, 0, 0);
    lemma_string_of_string_field(2, r.handler_name);
}

proof fn lemma_request_rt_parameter(r: InvokeRequestV, extra: Seq<FieldV>, hn: nat, kn: nat, tail: Seq<FieldV>)
    requires
        (hn == 4 && kn == 5 && extra == Seq::<FieldV>::empty()) || (hn == 5 && kn == 6 && exists|t: nat|
            extra == varint_field(4, t)),
        none_of(tail, 1, 0, 0),
        none_of(tail, 2, 0, 0),
        none_of(tail, 3, 0, 0),
        none_of(tail, hn, hn, hn),
        none_of(tail, kn, 0, 0),
    ensures
        spec_bytes_of(spec_last_of(request_fields(r, extra, hn, kn) + tail, 3, 0, 0)) == Some(r.parameter),
{
    let s1 = string_field(1, r.service_name);
    let s2 = string_field(2, r.handler_name);
    let p = bytes_field(3, r.parameter);
    let h = headers_fields(hn, r.headers);
    let k = string_field(kn, r.key);
    let fs = request_fields(r, extra, hn, kn) + tail;
    let e = Seq::<FieldV>::empty();
    if hn == 5 {
        let t = choose|t: nat| extra == varint_field(4, t);
        lemma_none_of_varint_field(4, t, 3, 0, 0);
    }
    lemma_none_of_headers(hn, r.headers, 3, 0, 0);
    lemma_none_of_string_field(1, r.service_name, 3, 0, 0);
    lemma_none_of_string_field(2, r.handler_name, 3, 0, 0);
    lemma_none_of_string_field(kn, r.key, 3, 0, 0);
    lemma_none_of_append(s1, s2, 3, 0, 0);
    lemma_none_of_append(extra, h, 3, 0, 0);
    lemma_none_of_append(extra + h, k, 3, 0, 0);
    lemma_none_of_append(extra + h + k, tail, 3, 0, 0);
    assert(fs =~= (s1 + s2) + p + (extra + h + k + tail));
    lemma_select(s1 + s2, p, extra + h + k + tail, 3, 0, 0);
    lemma_bytes_of_bytes_field(3, r.parameter);
}

proof fn lemma_request_rt_headers(r: InvokeRequestV, extra: Seq<FieldV>, hn: nat, kn: nat, tail: Seq<FieldV>)
    requires
        (hn == 4 && kn == 5 && extra == Seq::<FieldV>::empty()) || (hn == 5 && kn == 6 && exists|t: nat|
            extra == varint_field(4, t)),
        none_of(tail, 1, 0, 0),
        none_of(tail, 2, 0, 0),
        none_of(tail, 3, 0, 0),
        none_of(tail, hn, hn, hn),
        none_of(tail, kn, 0, 0),
        wf_headers(r.headers),
    ensures
        spec_decode_headers(spec_all_of(request_fields(r, extra, hn, kn) + tail, hn)) == Some(r.headers),
{
    let s1 = string_field(1, r.service_name);
    let s2 = string_field(2, r.handler_name);
    let p = bytes_field(3, r.parameter);
    let h = headers_fields(hn, r.headers);
    let k = string_field(kn, r.key);
    let fs = request_fields(r, extra, hn, kn) + tail;
    let e = Seq::<FieldV>::empty();
    if hn == 5 {
        let t = choose|t: nat| extra == varint_field(4, t);
        lemma_none_of_varint_field(4, t, hn, hn, hn);
    }
    lemma_headers_fields_numbers(hn, r.headers);
    lemma_none_of_string_field(1, r.service_name, hn, hn, hn);
    lemma_none_of_string_field(2, r.handler_name, hn, hn, hn);
    lemma_none_of_bytes_field(3, r.parameter, hn, hn, hn);
    lemma_none_of_string_field(kn, r.key, hn, hn, hn);
    lemma_none_of_append(s1, s2, hn, hn, hn);
    lemma_none_of_append(s1 + s2, p, hn, hn, hn);
    lemma_none_of_append(s1 + s2 + p, extra, hn, hn, hn);
    lemma_none_of_append(k, tail, hn, hn, hn);
    assert(fs =~= (s1 + s2 + p + extra) + h + (k + tail));
    lemma_collect(s1 + s2 + p + extra, h, k + tail, hn);
    lemma_headers_round_trip(hn, r.headers);
}

proof fn lemma_request_rt_key(r: InvokeRequestV, extra: Seq<FieldV>, hn: nat, kn: nat, tail: Seq<FieldV>)
    requires
        (hn == 4 && kn == 5 && extra == Seq::<FieldV>::empty()) || (hn == 5 && kn == 6 && exists|t: nat|
            extra == varint_field(4, t)),
        none_of(tail, 1, 0, 0),
        none_of(tail, 2, 0, 0),
        none_of(tail, 3, 0, 0),
        none_of(tail, hn, hn, hn),
        none_of(tail, kn, 0, 0),
    ensures
        spec_string_of(spec_last_of(request_fields(r, extra, hn, kn) + tail, kn, 0, 0)) == Some(r.key),
{
    let s1 = string_field(1, r.service_name);
    let s2 = string_field(2, r.handler_name);
    let p = bytes_field(3, r.parameter);
    let h = headers_fields(hn, r.headers);
    let k = string_field(kn, r.key);
    let fs = request_fields(r, extra, hn, kn) + tail;
    let e = Seq::<FieldV>::empty();
    if hn == 5 {
        let t = choose|t: nat| extra == varint_field(4, t);
        lemma_none_of_varint_field(4, t, kn, 0, 0);
    }
    lemma_none_of_headers(hn, r.headers, kn, 0, 0);
    lemma_none_of_string_field(1, r.service_name, kn, 0, 0);
    lemma_none_of_string_field(2, r.handler_name, kn, 0, 0);
    lemma_none_of_bytes_field(3, r.parameter, kn, 0, 0);
    lemma_none_of_append(s1, s2, kn, 0, 0);
    lemma_none_of_append(s1 + s2, p, kn, 0, 0);
    lemma_none_of_append(s1 + s2 + p, extra, kn, 0, 0);
    lemma_none_of_append(s1 + s2 + p + extra, h, kn, 0, 0);
    assert(fs =~= (s1 + s2 + p + extra + h) + k + tail);
    lemma_select(s1 + s2 + p + extra + h, k, tail, kn, 0, 0);
    lemma_string_of_string_field(kn, r.key);
}

proof fn lemma_request_round_trip(r: InvokeRequestV, extra: Seq<FieldV>, hn: nat, kn: nat, tail: Seq<FieldV>)
    requires
        (hn == 4 && kn == 5 && extra == Seq::<FieldV>::empty()) || (hn == 5 && kn == 6 && exists|t: nat|
            extra == varint_field(4, t)),
        none_of(tail, 1, 0, 0),
        none_of(tail, 2, 0, 0),
        none_of(tail, 3, 0, 0),
        none_of(tail, hn, hn, hn),
        none_of(tail, kn, 0, 0),
        wf_headers(r.headers),
    ensures
        spec_decode_request(request_fields(r, extra, hn, kn) + tail, hn, kn) == Some(r),
{
    lemma_request_rt_service(r, extra, hn, kn, tail);
    lemma_request_rt_handler(r, extra, hn, kn, tail);
    lemma_request_rt_parameter(r, extra, hn, kn, tail);
    lemma_request_rt_headers(r, extra, hn, kn, tail);
    lemma_request_rt_key(r, extra, hn, kn, tail);
}


proof fn lemma_none_of_request(r: InvokeRequestV, extra: Seq<FieldV>, hn: nat, kn: nat, a: nat, b: nat, c: nat)
    requires
        none_of(extra, a, b, c),
        !in3(1, a, b, c),
        !in3(2, a, b, c),
        !in3(3, a, b, c),
        !in3(hn, a, b, c),
        !in3(kn, a, b, c),
    ensures
        none_of(request_fields(r, extra, hn, kn), a, b, c),
{
    let s1 = string_field(1, r.service_name);
    let s2 = string_field(2, r.handler_name);
    let p = bytes_field(3, r.parameter);
    let h = headers_fields(hn, r.headers);
    let k = string_field(kn, r.key);
    lemma_none_of_string_field(1, r.service_name, a, b, c);
    lemma_none_of_string_field(2, r.handler_name, a, b, c);
    lemma_none_of_bytes_field(3, r.parameter, a, b, c);
    lemma_none_of_headers(hn, r.headers, a, b, c);
    lemma_none_of_string_field(kn, r.key, a, b, c);
    lemma_none_of_append(s1, s2, a, b, c);
    lemma_none_of_append(s1 + s2, p, a, b, c);
    lemma_none_of_append(s1 + s2 + p, extra, a, b, c);
    lemma_none_of_append(s1 + s2 + p + extra, h, a, b, c);
    lemma_none_of_append(s1 + s2 + p + extra + h, k, a, b, c);
}

proof fn lemma_rt_input(headers: Seq<HeaderV>, value: Seq<u8>, name: Seq<char>)
    requires
        wf_headers(headers),
    ensures
        spec_decode_entry(EntryType::Input, spec_entry_fields(EntryV::Input { headers, value }, name))
            == Some(EntryV::Input { headers, value }),
{
    let h = headers_fields(1, headers);
    let nm = string_field(12, name);
    let b = bytes_field(14, value);
    let e = Seq::<FieldV>::empty();
    let fs = h + nm + b;
    lemma_headers_fields_numbers(1, headers);
    lemma_none_of_string_field(12, name, 1, 1, 1);
    lemma_none_of_bytes_field(14, value, 1, 1, 1);
    lemma_none_of_append(nm, b, 1, 1, 1);
    lemma_none_of_empty(1, 1, 1);
    assert(fs =~= e + h + (nm + b));
    lemma_collect(e, h, nm + b, 1);
    lemma_headers_round_trip(1, headers);
    lemma_none_of_headers(1, headers, 14, 0, 0);
    lemma_none_of_string_field(12, name, 14, 0, 0);
    lemma_none_of_append(h, nm, 14, 0, 0);
    lemma_none_of_empty(14, 0, 0);
    assert(fs =~= (h + nm) + b + e);
    lemma_select(h + nm, b, e, 14, 0, 0);
    lemma_bytes_of_bytes_field(14, value);
}

/// Entries that are a name and one group of alternatives.
proof fn lemma_rt_named_one_of(name: Seq<char>, o: OneOfV, e: nat, v: nat, f: nat)
    requires
        !in3(12, e, v, f),
        wf_one_of(o),
        o is Empty ==> e != v && e != f,
        o is Value ==> v != e && v != f,
        o is Failure ==> f != e && f != v,
    ensures
        spec_one_of(string_field(12, name) + one_of_fields(o, e, v, f), e, v, f) == Some(o),
{
    lemma_none_of_string_field(12, name, e, v, f);
    lemma_none_of_empty(e, v, f);
    assert(string_field(12, name) + one_of_fields(o, e, v, f) =~= string_field(12, name) + one_of_fields(o, e, v, f)
        + Seq::<FieldV>::empty());
    lemma_one_of_round_trip(string_field(12, name), o, Seq::<FieldV>::empty(), e, v, f);
}

/// Entries that are a keyed (field 1) bytes or string, a name, and a group.
proof fn lemma_rt_keyed_one_of(k: Seq<FieldV>, name: Seq<char>, o: OneOfV, e: nat, v: nat, f: nat)
    requires
        k.len() <= 1,
        k.len() == 1 ==> k[0].number == 1,
        !in3(12, e, v, f),
        !in3(1, e, v, f),
        e != 1 && v != 1 && f != 1,
        e != 12 && v != 12 && f != 12,
        f >= 1,
        o is Empty ==> e >= 1,
        o is Value ==> v >= 1,
        wf_one_of(o),
        o is Empty ==> e != v && e != f,
        o is Value ==> v != e && v != f,
        o is Failure ==> f != e && f != v,
    ensures
        spec_one_of(k + string_field(12, name) + one_of_fields(o, e, v, f), e, v, f) == Some(o),
        spec_last_of(k + string_field(12, name) + one_of_fields(o, e, v, f), 1, 0, 0) == spec_last_of(k, 1, 0, 0),
{
    let nm = string_field(12, name);
    let m = one_of_fields(o, e, v, f);
    let z = Seq::<FieldV>::empty();
    assert(none_of(k, e, v, f));
    lemma_none_of_string_field(12, name, e, v, f);
    lemma_none_of_append(k, nm, e, v, f);
    lemma_none_of_empty(e, v, f);
    assert(k + nm + m =~= (k + nm) + m + z);
    lemma_one_of_round_trip(k + nm, o, z, e, v, f);
    lemma_none_of_string_field(12, name, 1, 0, 0);
    lemma_none_of_one_of(o, e, v, f, 1, 0, 0);
    lemma_none_of_append(nm, m, 1, 0, 0);
    lemma_none_of_empty(1, 0, 0);
    assert(k + nm + m =~= z + k + (nm + m));
    lemma_select(z, k, nm + m, 1, 0, 0);
    assert(z + k =~= k);
}

proof fn lemma_rt_set_state(key: Seq<u8>, value: Seq<u8>, name: Seq<char>)
    ensures
        spec_decode_entry(EntryType::SetState, spec_entry_fields(EntryV::SetState { key, value }, name))
            == Some(EntryV::SetState { key, value }),
{
    let k = bytes_field(1, key);
    let b = bytes_field(3, value);
    let nm = string_field(12, name);
    let z = Seq::<FieldV>::empty();
    lemma_none_of_bytes_field(3, value, 1, 0, 0);
    lemma_none_of_string_field(12, name, 1, 0, 0);
    lemma_none_of_append(b, nm, 1, 0, 0);
    lemma_none_of_empty(1, 0, 0);
    assert(k + b + nm =~= z + k + (b + nm));
    lemma_select(z, k, b + nm, 1, 0, 0);
    assert(z + k =~= k);
    lemma_bytes_of_bytes_field(1, key);
    lemma_none_of_bytes_field(1, key, 3, 0, 0);
    lemma_none_of_string_field(12, name, 3, 0, 0);
    lemma_select(k, b, nm, 3, 0, 0);
    lemma_bytes_of_bytes_field(3, value);
}

proof fn lemma_rt_clear_state(key: Seq<u8>, name: Seq<char>)
    ensures
        spec_decode_entry(EntryType::ClearState, spec_entry_fields(EntryV::ClearState { key }, name))
            == Some(EntryV::ClearState { key }),
{
    let k = bytes_field(1, key);
    let nm = string_field(12, name);
    let z = Seq::<FieldV>::empty();
    lemma_none_of_string_field(12, name, 1, 0, 0);
    lemma_none_of_empty(1, 0, 0);
    assert(k + nm =~= z + k + nm);
    lemma_select(z, k, nm, 1, 0, 0);
    assert(z + k =~= k);
    lemma_bytes_of_bytes_field(1, key);
}

proof fn lemma_rt_complete_promise(key: Seq<char>, completion: EntryResultV, value: Option<CompleteResultV>, name: Seq<char>)
    requires
        wf_entry_result(completion),
        wf_one_of(complete_one_of(value)),
    ensures
        spec_decode_entry(
            EntryType::CompletePromise,
            spec_entry_fields(EntryV::CompletePromise { key, completion, value }, name),
        ) == Some(EntryV::CompletePromise { key, completion, value }),
{
    let k = string_field(1, key);
    let c = one_of_fields(entry_result_one_of(Some(completion)), 0, 2, 3);
    let nm = string_field(12, name);
    let r = one_of_fields(complete_one_of(value), 13, 0, 15);
    let z = Seq::<FieldV>::empty();
    // key
    lemma_none_of_one_of(entry_result_one_of(Some(completion)), 0, 2, 3, 1, 0, 0);
    lemma_none_of_string_field(12, name, 1, 0, 0);
    lemma_none_of_one_of(complete_one_of(value), 13, 0, 15, 1, 0, 0);
    lemma_none_of_append(c, nm, 1, 0, 0);
    lemma_none_of_append(c + nm, r, 1, 0, 0);
    lemma_none_of_empty(1, 0, 0);
    assert(k + c + nm + r =~= z + k + (c + nm + r));
    lemma_select(z, k, c + nm + r, 1, 0, 0);
    assert(z + k =~= k);
    lemma_string_of_string_field(1, key);
    // completion
    lemma_none_of_string_field(1, key, 0, 2, 3);
    lemma_none_of_string_field(12, name, 0, 2, 3);
    lemma_none_of_one_of(complete_one_of(value), 13, 0, 15, 0, 2, 3);
    lemma_none_of_append(nm, r, 0, 2, 3);
    assert(k + c + nm + r =~= k + c + (nm + r));
    lemma_one_of_round_trip(k, entry_result_one_of(Some(completion)), nm + r, 0, 2, 3);
    // result
    lemma_none_of_string_field(1, key, 13, 0, 15);
    lemma_none_of_one_of(entry_result_one_of(Some(completion)), 0, 2, 3, 13, 0, 15);
    lemma_none_of_string_field(12, name, 13, 0, 15);
    lemma_none_of_append(k, c, 13, 0, 15);
    lemma_none_of_append(k + c, nm, 13, 0, 15);
    lemma_none_of_empty(13, 0, 15);
    assert(k + c + nm + r =~= (k + c + nm) + r + z);
    lemma_one_of_round_trip(k + c + nm, complete_one_of(value), z, 13, 0, 15);
}

proof fn lemma_rt_sleep(wake_up_time: u64, result: Option<SleepResultV>, name: Seq<char>)
    requires
        wf_one_of(sleep_one_of(result)),
    ensures
        spec_decode_entry(EntryType::Sleep, spec_entry_fields(EntryV::Sleep { wake_up_time, result }, name))
            == Some(EntryV::Sleep { wake_up_time, result }),
{
    let t = varint_field(1, wake_up_time as nat);
    let nm = string_field(12, name);
    let r = one_of_fields(sleep_one_of(result), 13, 0, 15);
    let z = Seq::<FieldV>::empty();
    lemma_none_of_string_field(12, name, 1, 0, 0);
    lemma_none_of_one_of(sleep_one_of(result), 13, 0, 15, 1, 0, 0);
    lemma_none_of_append(nm, r, 1, 0, 0);
    lemma_none_of_empty(1, 0, 0);
    assert(t + nm + r =~= z + t + (nm + r));
    lemma_select(z, t, nm + r, 1, 0, 0);
    assert(z + t =~= t);
    lemma_varint_of_varint_field(1, wake_up_time as nat);
    lemma_none_of_varint_field(1, wake_up_time as nat, 13, 0, 15);
    lemma_none_of_string_field(12, name, 13, 0, 15);
    lemma_none_of_append(t, nm, 13, 0, 15);
    lemma_none_of_empty(13, 0, 15);
    assert(t + nm + r =~= (t + nm) + r + z);
    lemma_one_of_round_trip(t + nm, sleep_one_of(result), z, 13, 0, 15);
}

proof fn lemma_rt_call(request: InvokeRequestV, result: Option<EntryResultV>, name: Seq<char>)
    requires
        wf_headers(request.headers),
        wf_opt_entry_result(result),
    ensures
        spec_decode_entry(EntryType::Call, spec_entry_fields(EntryV::Call { request, result }, name))
            == Some(EntryV::Call { request, result }),
{
    let rq = request_fields(request, Seq::<FieldV>::empty(), 4, 5);
    let nm = string_field(12, name);
    let r = one_of_fields(entry_result_one_of(result), 0, 14, 15);
    let z = Seq::<FieldV>::empty();
    lemma_none_of_string_field(12, name, 1, 0, 0);
    lemma_none_of_string_field(12, name, 2, 0, 0);
    lemma_none_of_string_field(12, name, 3, 0, 0);
    lemma_none_of_string_field(12, name, 4, 4, 4);
    lemma_none_of_string_field(12, name, 5, 0, 0);
    lemma_none_of_one_of(entry_result_one_of(result), 0, 14, 15, 1, 0, 0);
    lemma_none_of_one_of(entry_result_one_of(result), 0, 14, 15, 2, 0, 0);
    lemma_none_of_one_of(entry_result_one_of(result), 0, 14, 15, 3, 0, 0);
    lemma_none_of_one_of(entry_result_one_of(result), 0, 14, 15, 4, 4, 4);
    lemma_none_of_one_of(entry_result_one_of(result), 0, 14, 15, 5, 0, 0);
    lemma_none_of_append(nm, r, 1, 0, 0);
    lemma_none_of_append(nm, r, 2, 0, 0);
    lemma_none_of_append(nm, r, 3, 0, 0);
    lemma_none_of_append(nm, r, 4, 4, 4);
    lemma_none_of_append(nm, r, 5, 0, 0);
    assert(rq + nm + r =~= rq + (nm + r));
    lemma_request_round_trip(request, z, 4, 5, nm + r);
    lemma_none_of_empty(0, 14, 15);
    lemma_none_of_request(request, z, 4, 5, 0, 14, 15);
    lemma_none_of_string_field(12, name, 0, 14, 15);
    lemma_none_of_append(rq, nm, 0, 14, 15);
    assert(rq + nm + r =~= (rq + nm) + r + z);
    lemma_one_of_round_trip(rq + nm, entry_result_one_of(result), z, 0, 14, 15);
}

proof fn lemma_rt_one_way_call(request: InvokeRequestV, invoke_time: u64, name: Seq<char>)
    requires
        wf_headers(request.headers),
    ensures
        spec_decode_entry(EntryType::OneWayCall, spec_entry_fields(EntryV::OneWayCall { request, invoke_time }, name))
            == Some(EntryV::OneWayCall { request, invoke_time }),
{
    let x = varint_field(4, invoke_time as nat);
    let rq = request_fields(request, x, 5, 6);
    let nm = string_field(12, name);
    lemma_none_of_string_field(12, name, 1, 0, 0);
    lemma_none_of_string_field(12, name, 2, 0, 0);
    lemma_none_of_string_field(12, name, 3, 0, 0);
    lemma_none_of_string_field(12, name, 5, 5, 5);
    lemma_none_of_string_field(12, name, 6, 0, 0);
    lemma_request_round_trip(request, x, 5, 6, nm);
    // invoke time
    let s1 = string_field(1, request.service_name);
    let s2 = string_field(2, request.handler_name);
    let p = bytes_field(3, request.parameter);
    let h = headers_fields(5, request.headers);
    let k = string_field(6, request.key);
    lemma_none_of_string_field(1, request.service_name, 4, 0, 0);
    lemma_none_of_string_field(2, request.handler_name, 4, 0, 0);
    lemma_none_of_bytes_field(3, request.parameter, 4, 0, 0);
    lemma_none_of_headers(5, request.headers, 4, 0, 0);
    lemma_none_of_string_field(6, request.key, 4, 0, 0);
    lemma_none_of_string_field(12, name, 4, 0, 0);
    lemma_none_of_append(s1, s2, 4, 0, 0);
    lemma_none_of_append(s1 + s2, p, 4, 0, 0);
    lemma_none_of_append(h, k, 4, 0, 0);
    lemma_none_of_append(h + k, nm, 4, 0, 0);
    assert(rq + nm =~= (s1 + s2 + p) + x + (h + k + nm));
    lemma_select(s1 + s2 + p, x, h + k + nm, 4, 0, 0);
    lemma_varint_of_varint_field(4, invoke_time as nat);
}


proof fn lemma_rt_complete_awakeable(id: Seq<char>, result: EntryResultV, name: Seq<char>)
    requires
        wf_entry_result(result),
    ensures
        spec_decode_entry(EntryType::CompleteAwakeable, spec_entry_fields(EntryV::CompleteAwakeable { id, result }, name))
            == Some(EntryV::CompleteAwakeable { id, result }),
{
    let k = string_field(1, id);
    let o = entry_result_one_of(Some(result));
    let r = one_of_fields(o, 0, 5, 6);
    let nm = string_field(12, name);
    let z = Seq::<FieldV>::empty();
    lemma_none_of_one_of(o, 0, 5, 6, 1, 0, 0);
    lemma_none_of_string_field(12, name, 1, 0, 0);
    lemma_none_of_append(r, nm, 1, 0, 0);
    lemma_none_of_empty(1, 0, 0);
    assert(k + r + nm =~= z + k + (r + nm));
    lemma_select(z, k, r + nm, 1, 0, 0);
    assert(z + k =~= k);
    lemma_string_of_string_field(1, id);
    lemma_none_of_string_field(1, id, 0, 5, 6);
    lemma_none_of_string_field(12, name, 0, 5, 6);
    lemma_one_of_round_trip(k, o, nm, 0, 5, 6);
}

/// Decoding the fields of the message that carries an entry gives the entry
/// back, whatever its name.
pub proof fn lemma_entry_fields_round_trip(e: EntryV, name: Seq<char>)
    requires
        wf_entry(e),
        !(e is Custom),
    ensures
        spec_decode_entry(e.entry_type(), spec_entry_fields(e, name)) == Some(e),
{
    let nm = string_field(12, name);
    match e {
        EntryV::Input { headers, value } => lemma_rt_input(headers, value, name),
        EntryV::Output { result } => {
            lemma_rt_named_one_of(name, entry_result_one_of(Some(result)), 0, 14, 15);
        },
        EntryV::GetState { key, value } => {
            lemma_rt_keyed_one_of(bytes_field(1, key), name, completion_one_of(value), 13, 14, 15);
            lemma_bytes_of_bytes_field(1, key);
        },
        EntryV::SetState { key, value } => lemma_rt_set_state(key, value, name),
        EntryV::ClearState { key } => lemma_rt_clear_state(key, name),
        EntryV::GetStateKeys { value } => {
            lemma_rt_named_one_of(name, state_keys_one_of(value), 0, 14, 15);
            match value {
                Some(GetStateKeysResultV::Result(keys)) => lemma_state_keys_round_trip(keys),
                _ => {},
            }
        },
        EntryV::ClearAllState => {},
        EntryV::GetPromise { key, value } => {
            lemma_rt_keyed_one_of(string_field(1, key), name, entry_result_one_of(value), 0, 14, 15);
            lemma_string_of_string_field(1, key);
        },
        EntryV::PeekPromise { key, value } => {
            lemma_rt_keyed_one_of(string_field(1, key), name, completion_one_of(value), 13, 14, 15);
            lemma_string_of_string_field(1, key);
        },
        EntryV::CompletePromise { key, completion, value } => lemma_rt_complete_promise(key, completion, value, name),
        EntryV::Sleep { wake_up_time, result } => lemma_rt_sleep(wake_up_time, result, name),
        EntryV::Call { request, result } => lemma_rt_call(request, result, name),
        EntryV::OneWayCall { request, invoke_time } => lemma_rt_one_way_call(request, invoke_time, name),
        EntryV::Awakeable { result } => {
            lemma_rt_named_one_of(name, entry_result_one_of(result), 0, 14, 15);
        },
        EntryV::CompleteAwakeable { id, result } => lemma_rt_complete_awakeable(id, result, name),
        EntryV::Run { result } => {
            lemma_rt_named_one_of(name, entry_result_one_of(Some(result)), 0, 14, 15);
        },
        EntryV::Custom { .. } => {},
    }
}

/// Deserializing the serialized message of an entry gives the entry back,
/// whatever its name.
pub proof fn lemma_entry_round_trip(e: EntryV, name: Seq<char>)
    requires
        wf_entry(e),
        valid_fields(spec_entry_fields(e, name)),
    ensures
        spec_deserialize(e.entry_type(), spec_serialize_entry(e, name)) == Some(e),
{
    if !(e is Custom) {
        lemma_fields_round_trip(spec_entry_fields(e, name));
        lemma_entry_fields_round_trip(e, name);
    }
}


/// A sleep is written with its wake-up time as the varint field number 1 of
/// the message (key byte `0x08`), left out where it is zero; and a message
/// whose field 1 holds `t` reads back as a sleep until `t`, not yet fired.
pub proof fn law_sleep_wake_up_time_is_field_one(t: u64)
    ensures
        spec_serialize_entry(EntryV::Sleep { wake_up_time: t, result: None }, Seq::<char>::empty()) == (if t
            == 0 {
            Seq::<u8>::empty()
        } else {
            seq![0x08u8] + spec_varint(t as nat)
        }),
        spec_deserialize(EntryType::Sleep, seq![0x08u8] + spec_varint(t as nat)) == Some(
            EntryV::Sleep { wake_up_time: t, result: None },
        ),
{
    let f = FieldV { number: 1, value: WireValueV::Varint(t as nat) };
    let fs = seq![f];
    assert(vstd::utf8::encode_utf8(Seq::<char>::empty()) =~= Seq::<u8>::empty());
    assert(spec_varint(8) == seq![0x08u8]);
    assert(fs.drop_first() =~= Seq::<FieldV>::empty());
    assert(spec_encode_fields(fs.drop_first()) == Seq::<u8>::empty());
    assert(spec_encode_field(f) == spec_varint(8) + spec_varint(t as nat));
    assert(spec_encode_fields(fs) =~= seq![0x08u8] + spec_varint(t as nat));
    if t != 0 {
        assert(spec_entry_fields(EntryV::Sleep { wake_up_time: t, result: None }, Seq::<char>::empty()) =~= fs);
    } else {
        assert(spec_entry_fields(EntryV::Sleep { wake_up_time: t, result: None }, Seq::<char>::empty())
            =~= Seq::<FieldV>::empty());
    }
    assert(valid_fields(fs));
    lemma_fields_round_trip(fs);
    reveal_with_fuel(spec_last_of, 2);
    assert(spec_last_of(fs, 13, 0, 15) is None);
}

/// The field that carries a completion result: `empty` (13), `value` (14) or
/// `failure` (15), as in a completion message.
pub open spec fn completion_field(r: CompletionResultV) -> FieldV {
    one_of_fields(completion_one_of(Some(r)), 13, 14, 15)[0]
}

/// The entry that a completion result makes of a completable entry, as the
/// entry's message reads when the completion's field is appended to it: a
/// field that the entry's message does not have is passed over.
pub open spec fn spec_complete_entry(e: EntryV, r: CompletionResultV) -> Option<EntryV> {
    match e {
        EntryV::GetState { key, .. } => Some(EntryV::GetState { key, value: Some(r) }),
        EntryV::PeekPromise { key, .. } => Some(EntryV::PeekPromise { key, value: Some(r) }),
        EntryV::GetStateKeys { .. } => match r {
            CompletionResultV::Empty => Some(e),
            CompletionResultV::Success(b) => match spec_decode_state_keys(b) {
                Some(keys) => Some(EntryV::GetStateKeys { value: Some(GetStateKeysResultV::Result(keys)) }),
                None => None,
            },
            CompletionResultV::Failure(f) => Some(EntryV::GetStateKeys { value: Some(GetStateKeysResultV::Failure(f)) }),
        },
        EntryV::GetPromise { key, .. } => match r {
            CompletionResultV::Empty => Some(e),
            CompletionResultV::Success(b) => Some(EntryV::GetPromise { key, value: Some(EntryResultV::Success(b)) }),
            CompletionResultV::Failure(f) => Some(EntryV::GetPromise { key, value: Some(EntryResultV::Failure(f)) }),
        },
        EntryV::Call { request, .. } => match r {
            CompletionResultV::Empty => Some(e),
            CompletionResultV::Success(b) => Some(EntryV::Call { request, result: Some(EntryResultV::Success(b)) }),
            CompletionResultV::Failure(f) => Some(EntryV::Call { request, result: Some(EntryResultV::Failure(f)) }),
        },
        EntryV::Awakeable { .. } => match r {
            CompletionResultV::Empty => Some(e),
            CompletionResultV::Success(b) => Some(EntryV::Awakeable { result: Some(EntryResultV::Success(b)) }),
            CompletionResultV::Failure(f) => Some(EntryV::Awakeable { result: Some(EntryResultV::Failure(f)) }),
        },
        EntryV::CompletePromise { key, completion, .. } => match r {
            CompletionResultV::Empty => Some(EntryV::CompletePromise { key, completion, value: Some(CompleteResultV::Done) }),
            CompletionResultV::Success(_) => Some(e),
            CompletionResultV::Failure(f) => Some(
                EntryV::CompletePromise { key, completion, value: Some(CompleteResultV::Failure(f)) },
            ),
        },
        EntryV::Sleep { wake_up_time, .. } => match r {
            CompletionResultV::Empty => Some(EntryV::Sleep { wake_up_time, result: Some(SleepResultV::Fired) }),
            CompletionResultV::Success(_) => Some(e),
            CompletionResultV::Failure(f) => Some(EntryV::Sleep { wake_up_time, result: Some(SleepResultV::Failure(f)) }),
        },
        _ => Some(e),
    }
}

proof fn lemma_selectors_push(fs: Seq<FieldV>, c: FieldV)
    ensures
        forall|a: nat, b: nat, d: nat| #[trigger] spec_last_of(fs.push(c), a, b, d) == if in3(c.number, a, b, d) {
            Some(c)
        } else {
            spec_last_of(fs, a, b, d)
        },
        forall|n: nat| #[trigger] spec_all_of(fs.push(c), n) == if c.number == n {
            spec_all_of(fs, n).push(c)
        } else {
            spec_all_of(fs, n)
        },
{
    assert(fs.push(c).drop_last() =~= fs);
    assert(fs.push(c).last() == c);
}

/// Appending the field of a completion result to the fields of a completable
/// entry's message completes the entry as `spec_complete_entry` says.
pub proof fn lemma_complete_fields(ty: EntryType, fs: Seq<FieldV>, r: CompletionResultV)
    requires
        ty.spec_is_completable(),
        spec_decode_entry(ty, fs) is Some,
        match r {
            CompletionResultV::Failure(f) => wf_failure(f),
            _ => true,
        },
    ensures
        spec_decode_entry(ty, fs.push(completion_field(r))) == spec_complete_entry(spec_decode_entry(ty, fs).unwrap(), r),
{
    let c = completion_field(r);
    lemma_selectors_push(fs, c);
    match r {
        CompletionResultV::Failure(f) => {
            lemma_failure_round_trip(f);
        },
        CompletionResultV::Empty => {
            assert(spec_read_fields(Seq::<u8>::empty()) is Some);
        },
        _ => {},
    }
}


/// Serialized entries: appending a completion result's field completes the
/// entry as `spec_complete_entry` says.
pub proof fn lemma_complete_serialized(ty: EntryType, b: Seq<u8>, r: CompletionResultV)
    requires
        ty.spec_is_completable(),
        spec_deserialize(ty, b) is Some,
        valid_field(completion_field(r)),
        match r {
            CompletionResultV::Failure(f) => wf_failure(f),
            _ => true,
        },
    ensures
        spec_deserialize(ty, b + spec_encode_fields(seq![completion_field(r)])) == spec_complete_entry(
            spec_deserialize(ty, b).unwrap(),
            r,
        ),
{
    let c = completion_field(r);
    let fs = spec_read_fields(b).unwrap();
    lemma_fields_round_trip(seq![c]);
    lemma_read_fields_append(b, spec_encode_fields(seq![c]));
    assert(fs + seq![c] =~= fs.push(c));
    lemma_complete_fields(ty, fs, r);
}

/// The header of a serialized entry: its kind, whether it is completed (for
/// completable kinds), and the code of a custom entry.
#[derive(Clone, Copy, Debug, PartialEq, Eq, Structural)]
pub struct EntryHeader {
    pub ty: EntryType,
    pub completed: bool,
    pub code: u16,
}

impl EntryHeader {
    pub open spec fn spec_is_completed(self) -> Option<bool> {
        if self.ty.spec_is_completable() {
            Some(self.completed)
        } else {
            None
        }
    }

    /// Whether the entry is completed: `None` for kinds that are never completed.
    pub fn is_completed(&self) -> (r: Option<bool>)
        ensures
            r == self.spec_is_completed(),
    {
        if self.ty.is_completable() {
            Some(self.completed)
        } else {
            None
        }
    }

    /// Marks the entry completed.
    pub fn mark_completed(&mut self)
        ensures
            final(self).ty == old(self).ty,
            final(self).code == old(self).code,
            final(self).completed,
    {
        self.completed = true;
    }
}

/// A serialized entry with its header.
#[derive(Clone, Debug, PartialEq, Eq)]
pub struct RawEntry {
    pub header: EntryHeader,
    pub entry: Vec<u8>,
}

impl RawEntry {
    pub fn new(header: EntryHeader, entry: Vec<u8>) -> (r: Self)
        ensures
            r.header == header,
            r.entry == entry,
    {
        RawEntry { header, entry }
    }

    /// The entry this raw entry holds.
    pub fn deserialize_entry(&self) -> (r: Result<Entry, RawEntryCodecError>)
        ensures
            match spec_deserialize(self.header.ty, self.entry@) {
                Some(e) => r matches Ok(x) && x@ == e,
                None => r == Err::<Entry, RawEntryCodecError>(RawEntryCodecError { entry_type: self.header.ty }),
            },
    {
        ProtobufRawEntryCodec::deserialize(self.header.ty, &self.entry)
    }
}

/// An entry message that could not be read: the kind of entry it should hold.
#[derive(Clone, Copy, Debug, PartialEq, Eq, Structural)]
pub struct RawEntryCodecError {
    pub entry_type: EntryType,
}

/// The codec between journal entries and their protobuf messages.
#[derive(Clone, Copy, Debug, Default)]
pub struct ProtobufRawEntryCodec;

impl ProtobufRawEntryCodec {
    /// The input entry carrying `value` and `headers`, serialized.
    pub fn serialize_as_input_entry(headers: Vec<Header>, value: Vec<u8>) -> (r: RawEntry)
        ensures
            r.header == (EntryHeader { ty: EntryType::Input, completed: false, code: 0x0400 }),
            r.entry@ == spec_serialize_entry(EntryV::Input { headers: headers_view(headers@), value: value@ }, Seq::empty()),
            spec_deserialize(EntryType::Input, r.entry@) == Some(
                EntryV::Input { headers: headers_view(headers@), value: value@ },
            ),
    {
        let e = Entry::Input { headers, value };
        let name = String::new();
        let fs = entry_fields(&e, &name);
        let b = encode_fields(&fs);
        proof {
            lemma_entry_round_trip(e@, name@);
        }
        RawEntry { header: EntryHeader { ty: EntryType::Input, completed: false, code: 0x0400 }, entry: b }
    }

    /// The completion result that carries the given state keys.
    pub fn serialize_get_state_keys_completion(keys: Vec<Vec<u8>>) -> (r: CompletionResult)
        ensures
            r@ == CompletionResultV::Success(state_keys_bytes(bytes_list_view(keys@))),
    {
        CompletionResult::Success(state_keys_to_bytes(&keys))
    }

    /// The entry of kind `entry_type` that `entry_value` holds.
    pub fn deserialize(entry_type: EntryType, entry_value: &Vec<u8>) -> (r: Result<Entry, RawEntryCodecError>)
        ensures
            match spec_deserialize(entry_type, entry_value@) {
                Some(e) => r matches Ok(x) && x@ == e,
                None => r == Err::<Entry, RawEntryCodecError>(RawEntryCodecError { entry_type }),
            },
    {
        if let EntryType::Custom = entry_type {
            return Ok(Entry::Custom { value: copy_all(entry_value.as_slice()) });
        }
        let fs = match read_fields(entry_value.as_slice()) {
            Some(fs) => fs,
            None => return Err(RawEntryCodecError { entry_type }),
        };
        match decode_entry(entry_type, &fs) {
            Some(e) => Ok(e),
            None => Err(RawEntryCodecError { entry_type }),
        }
    }

    /// The name an entry message carries (field 12), if it carries one.
    pub fn read_entry_name(entry_type: EntryType, entry_value: &Vec<u8>) -> (r: Result<Option<String>, RawEntryCodecError>)
        ensures
            match spec_read_fields(entry_value@) {
                Some(fs) => match spec_last_of(fs, 12, 0, 0) {
                    None => r == Ok::<Option<String>, RawEntryCodecError>(None),
                    Some(f) => match spec_string_of(Some(f)) {
                        Some(t) => r matches Ok(Some(x)) && x@ == t,
                        None => r == Err::<Option<String>, RawEntryCodecError>(RawEntryCodecError { entry_type }),
                    },
                },
                None => r == Err::<Option<String>, RawEntryCodecError>(RawEntryCodecError { entry_type }),
            },
    {
        let fs = match read_fields(entry_value.as_slice()) {
            Some(fs) => fs,
            None => return Err(RawEntryCodecError { entry_type }),
        };
        match last_of(&fs, 12, 0, 0) {
            None => Ok(None),
            Some(f) => match string_of(Some(f)) {
                Some(t) => Ok(Some(t)),
                None => Err(RawEntryCodecError { entry_type }),
            },
        }
    }

    /// Completes a raw entry: appends the completion result's field to its
    /// message and marks it completed.
    pub fn write_completion(entry: &mut RawEntry, completion_result: CompletionResult) -> (r: Result<(), RawEntryCodecError>)
        requires
            old(entry).header.spec_is_completed() == Some(false),
        ensures
            r is Ok,
            final(entry).header.ty == old(entry).header.ty,
            final(entry).header.code == old(entry).header.code,
            final(entry).header.spec_is_completed() == Some(true),
            final(entry).entry@ == old(entry).entry@ + spec_encode_fields(seq![completion_field(completion_result@)]),
            spec_deserialize(old(entry).header.ty, old(entry).entry@) matches Some(d) ==> spec_deserialize(
                final(entry).header.ty,
                final(entry).entry@,
            ) == spec_complete_entry(d, completion_result@),
    {
        let o = match completion_result {
            CompletionResult::Empty => OneOf::Empty,
            CompletionResult::Success(b) => OneOf::Value(b),
            CompletionResult::Failure(f) => OneOf::Failure(f),
        };
        let mut fs: Vec<Field> = Vec::new();
        assert(fields_view(fs@) =~= Seq::<FieldV>::empty());
        push_one_of(&mut fs, &o, 13, 14, 15);
        assert(fields_view(fs@) =~= seq![completion_field(completion_result@)]);
        proof {
            if spec_deserialize(entry.header.ty, entry.entry@) is Some {
                assert(valid_field(fields_view(fs@)[0]));
                lemma_complete_serialized(entry.header.ty, entry.entry@, completion_result@);
            }
        }
        write_fields(&mut entry.entry, &fs);
        entry.header.mark_completed();
        Ok(())
    }
}

} // verus!
