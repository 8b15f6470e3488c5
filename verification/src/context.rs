//! What the contexts handed to the user code compute: awakeable ids, wake-up
//! times, and the order a combinator records; the kinds of context.

use vstd::prelude::*;
use base64::Engine;
use crate::entry::Entry;
use crate::wire::{spec_varint, write_varint, Field, FieldV, WireValue, WireValueV, spec_encode_fields, encode_fields};

verus! {

/// The context a call is made in: plainly, or inside a side effect.
#[derive(Clone, Copy, Debug, PartialEq, Eq, Structural)]
pub enum CallContextType {
    Plain,
    Run,
}

/// The context of a service handler.
pub trait RestateContext {}

/// The context of an exclusive handler of a virtual object.
pub trait RestateObjectContext {}

/// The context of a shared handler of a virtual object.
pub trait RestateObjectSharedContext {}

/// A context bound to a key.
pub trait ContextKeyed {
    /// The key (empty unless the context knows it).
    fn key() -> (r: String)
        default_ensures
            r@ == Seq::<char>::empty(),
    {
        String::new()
    }
}

/// The prefix of an awakeable's id.
pub open spec fn awakeable_prefix() -> Seq<char> {
    "prom_1"@
}

/// The four bytes of `v`, most significant first.
pub open spec fn spec_u32_be(v: u32) -> Seq<u8> {
    seq![(v / 0x100_0000) as u8, ((v / 0x1_0000) % 256) as u8, ((v / 256) % 256) as u8, (v % 256) as u8]
}

/// What the id of an awakeable encodes: the invocation's id, then the index of
/// the awakeable's entry (four bytes, most significant first).
pub fn awakeable_id_input(invocation_id: &Vec<u8>, entry_index: u32) -> (r: Vec<u8>)
    ensures
        r@ == invocation_id@ + spec_u32_be(entry_index),
{
    let mut out: Vec<u8> = Vec::new();
    crate::wire::append_bytes(&mut out, invocation_id.as_slice());
    out.push((entry_index / 0x100_0000) as u8);
    out.push(((entry_index / 0x1_0000) % 256) as u8);
    out.push(((entry_index / 256) % 256) as u8);
    out.push((entry_index % 256) as u8);
    assert(out@ =~= invocation_id@ + spec_u32_be(entry_index));
    out
}

/// The URL-safe base64 text of some bytes, without padding.
pub uninterp spec fn base64_url(b: Seq<u8>) -> Seq<char>;

/// Encodes bytes as URL-safe base64 without padding, with `Engine::encode` of
/// the engine `URL_SAFE_NO_PAD` of the `base64` crate (the URL-safe alphabet;
/// encoding writes no padding). The text is named by `base64_url`, and nothing
/// more is claimed of it. The encoder panics where the encoded length overflows
/// `usize`; `requires` leaves those inputs out.
#[verifier::external_body]
fn encode_base64_url(b: &[u8]) -> (r: String)
    requires
        b@.len() / 3 * 4 + 3 <= usize::MAX,
    ensures
        r@ == base64_url(b@),
{
    base64::engine::general_purpose::URL_SAFE_NO_PAD.encode(b)
}

/// The id of an awakeable from the encoded text: the prefix, then the text.
pub fn awakeable_id_from_encoded(encoded: &str) -> (r: String)
    ensures
        r@ == awakeable_prefix() + encoded@,
{
    proof {
        reveal_strlit("prom_1");
    }
    let mut id = "prom_1".to_string();
    id.append(encoded);
    id
}

/// The id of the awakeable of an invocation at an entry index: the prefix, then
/// the URL-safe base64 text of the invocation's id and the index.
pub fn awakeable_id(invocation_id: &Vec<u8>, entry_index: u32) -> (r: String)
    requires
        (invocation_id@.len() + 4) / 3 * 4 + 3 <= usize::MAX,
    ensures
        r@ == awakeable_prefix() + base64_url(invocation_id@ + spec_u32_be(entry_index)),
{
    let input = awakeable_id_input(invocation_id, entry_index);
    let encoded = encode_base64_url(input.as_slice());
    awakeable_id_from_encoded(encoded.as_str())
}

/// The order in which a timeout's futures are recorded: the timer alone where
/// only the timer fired, else the future then the timer.
pub open spec fn spec_timeout_order(future_pending: bool, timer_ready: bool, future_index: u32, timer_index: u32) -> Seq<
    i32,
> {
    if future_pending && timer_ready {
        seq![timer_index as i32]
    } else {
        seq![future_index as i32, timer_index as i32]
    }
}

/// The order in which a timeout's futures are recorded.
pub fn timeout_order(future_pending: bool, timer_ready: bool, future_index: u32, timer_index: u32) -> (r: Vec<i32>)
    ensures
        r@ == spec_timeout_order(future_pending, timer_ready, future_index, timer_index),
{
    let mut order: Vec<i32> = Vec::new();
    if future_pending && timer_ready {
        order.push(timer_index as i32);
    } else {
        order.push(future_index as i32);
        order.push(timer_index as i32);
    }
    assert(order@ =~= spec_timeout_order(future_pending, timer_ready, future_index, timer_index));
    order
}

/// An `int32` as the wire format writes it: a negative value as its 64-bit
/// two's complement.
pub open spec fn int32_wire(v: i32) -> nat {
    if v >= 0 {
        v as nat
    } else {
        (v + 0x1_0000_0000_0000_0000) as nat
    }
}

/// The packed encoding of `int32` values: their varints one after another.
pub open spec fn spec_packed_int32(vs: Seq<i32>) -> Seq<u8>
    decreases vs.len(),
{
    if vs.len() == 0 {
        Seq::empty()
    } else {
        spec_packed_int32(vs.drop_last()) + spec_varint(int32_wire(vs.last()))
    }
}

/// The message of a combinator entry: combinator id 0 (left out), and the
/// order of the journal entries (field 2, packed; left out where empty).
pub open spec fn spec_combinator_message(order: Seq<i32>) -> Seq<u8> {
    if order.len() == 0 {
        Seq::empty()
    } else {
        spec_encode_fields(seq![FieldV { number: 2, value: WireValueV::Bytes(spec_packed_int32(order)) }])
    }
}

fn int32_to_wire(v: i32) -> (r: u64)
    ensures
        r == int32_wire(v),
{
    if v >= 0 {
        v as u64
    } else {
        let w: i128 = v as i128 + 0x1_0000_0000_0000_0000i128;
        w as u64
    }
}

/// The packed encoding of `int32` values.
pub fn packed_int32(vs: &Vec<i32>) -> (r: Vec<u8>)
    ensures
        r@ == spec_packed_int32(vs@),
{
    let mut out: Vec<u8> = Vec::new();
    let mut i: usize = 0;
    assert(vs@.take(0) =~= Seq::<i32>::empty());
    while i < vs.len()
        invariant
            i <= vs@.len(),
            out@ == spec_packed_int32(vs@.take(i as int)),
        decreases vs@.len() - i,
    {
        write_varint(&mut out, int32_to_wire(vs[i]));
        assert(vs@.take(i + 1).drop_last() =~= vs@.take(i as int));
        i = i + 1;
    }
    assert(vs@.take(vs@.len() as int) =~= vs@);
    out
}

proof fn lemma_packed_len(vs: Seq<i32>)
    ensures
        spec_packed_int32(vs).len() <= 10 * vs.len(),
    decreases vs.len(),
{
    if vs.len() > 0 {
        lemma_packed_len(vs.drop_last());
        crate::wire::lemma_varint_len(int32_wire(vs.last()));
    }
}

/// The custom entry that records the order of a combinator's futures.
pub fn combinator_entry(order: &Vec<i32>) -> (r: Entry)
    requires
        order@.len() < 0x1000_0000,
    ensures
        r@ == (crate::entry::EntryV::Custom { value: spec_combinator_message(order@) }),
{
    if order.len() == 0 {
        let value: Vec<u8> = Vec::new();
        assert(value@ =~= spec_combinator_message(order@));
        return Entry::Custom { value };
    }
    let packed = packed_int32(order);
    proof {
        lemma_packed_len(order@);
    }
    let mut fs: Vec<Field> = Vec::new();
    fs.push(Field { number: 2, value: WireValue::Bytes(packed) });
    assert(fs@.map_values(|f: Field| f@) =~= seq![FieldV { number: 2, value: WireValueV::Bytes(spec_packed_int32(order@)) }]);
    Entry::Custom { value: encode_fields(&fs) }
}

/// What a completed timeout gives the user code: the timer firing is a timeout
/// error, else the future's outcome.
#[derive(Clone, Copy, Debug, PartialEq, Eq, Structural)]
pub enum TimeoutOutcome {
    TimedOut,
    Completed,
}

/// The outcome of a timeout whose order is recorded: timed out where the timer
/// fired.
pub fn timeout_outcome(timer_ready: bool) -> (r: TimeoutOutcome)
    ensures
        r == (if timer_ready {
            TimeoutOutcome::TimedOut
        } else {
            TimeoutOutcome::Completed
        }),
{
    if timer_ready {
        TimeoutOutcome::TimedOut
    } else {
        TimeoutOutcome::Completed
    }
}

} // verus!
