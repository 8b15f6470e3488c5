//! The protobuf wire format that the service protocol messages are written in:
//! base-128 varints, field keys, and messages as sequences of fields.

use vstd::prelude::*;

verus! {

/// The largest value a varint of the wire format may carry, plus one.
pub open spec fn varint_limit() -> nat {
    0x1_0000_0000_0000_0000
}

/// The varint encoding of `v`: seven bits per byte, least significant group
/// first, the high bit of a byte set when more bytes follow.
pub open spec fn spec_varint(v: nat) -> Seq<u8>
    decreases v,
{
    if v < 128 {
        seq![v as u8]
    } else {
        seq![((v % 128) + 128) as u8] + spec_varint(v / 128)
    }
}

/// Reads a varint from the front of `s` using at most `budget` bytes: the value
/// and the number of bytes read.
pub open spec fn spec_read_varint_bounded(s: Seq<u8>, budget: nat) -> Option<(nat, nat)>
    decreases budget,
{
    if budget == 0 || s.len() == 0 {
        None
    } else if s[0] < 128 {
        Some((s[0] as nat, 1))
    } else {
        match spec_read_varint_bounded(s.drop_first(), (budget - 1) as nat) {
            Some((v, n)) => Some((((s[0] - 128) + 128 * v) as nat, n + 1)),
            None => None,
        }
    }
}

/// Reads a varint from the front of `s`: at most ten bytes, and a value below 2^64.
pub open spec fn spec_read_varint(s: Seq<u8>) -> Option<(nat, nat)> {
    match spec_read_varint_bounded(s, 10) {
        Some((v, n)) => if v < varint_limit() {
            Some((v, n))
        } else {
            None
        },
        None => None,
    }
}

pub open spec fn pow128(k: nat) -> nat
    decreases k,
{
    if k == 0 {
        1
    } else {
        128 * pow128((k - 1) as nat)
    }
}

proof fn lemma_varint_len_bound(v: nat, k: nat)
    requires
        k >= 1,
        v < pow128(k),
    ensures
        spec_varint(v).len() <= k,
    decreases v,
{
    if v >= 128 {
        assert(k >= 2) by {
            if k == 1 {
                assert(pow128(1) == 128) by {
                    reveal_with_fuel(pow128, 2);
                }
            }
        }
        assert(v / 128 < pow128((k - 1) as nat)) by (nonlinear_arith)
            requires
                v < 128 * pow128((k - 1) as nat),
        ;
        lemma_varint_len_bound(v / 128, (k - 1) as nat);
    }
}

/// Every encoded varint of a value below 2^64 is at most ten bytes long.
pub proof fn lemma_varint_len(v: nat)
    requires
        v < varint_limit(),
    ensures
        1 <= spec_varint(v).len() <= 10,
{
    assert(pow128(10) == 1180591620717411303424) by {
        reveal_with_fuel(pow128, 11);
    }
    lemma_varint_len_bound(v, 10);
}

proof fn lemma_read_encoded_varint_bounded(v: nat, rest: Seq<u8>, budget: nat)
    requires
        spec_varint(v).len() <= budget,
    ensures
        spec_read_varint_bounded(spec_varint(v) + rest, budget) == Some((v, spec_varint(v).len())),
    decreases v,
{
    let s = spec_varint(v) + rest;
    if v < 128 {
        assert(s[0] == v as u8);
    } else {
        let tail = spec_varint(v / 128);
        assert(s[0] == ((v % 128) + 128) as u8);
        assert(s.drop_first() =~= tail + rest);
        lemma_read_encoded_varint_bounded(v / 128, rest, (budget - 1) as nat);
    }
}

/// Reading the encoding of a varint, followed by anything, gives the value back
/// together with the length of its encoding.
pub proof fn lemma_varint_round_trip(v: nat, rest: Seq<u8>)
    requires
        v < varint_limit(),
    ensures
        spec_read_varint(spec_varint(v) + rest) == Some((v, spec_varint(v).len())),
{
    lemma_varint_len(v);
    lemma_read_encoded_varint_bounded(v, rest, 10);
}

proof fn lemma_read_varint_bounded_prefix(s: Seq<u8>, rest: Seq<u8>, budget: nat)
    requires
        spec_read_varint_bounded(s, budget) is Some,
    ensures
        spec_read_varint_bounded(s + rest, budget) == spec_read_varint_bounded(s, budget),
        spec_read_varint_bounded(s, budget).unwrap().1 <= s.len(),
        spec_read_varint_bounded(s, budget).unwrap().1 >= 1,
    decreases budget,
{
    if s[0] >= 128 {
        assert((s + rest).drop_first() =~= s.drop_first() + rest);
        lemma_read_varint_bounded_prefix(s.drop_first(), rest, (budget - 1) as nat);
    }
}

/// A varint read from the front of a byte string is read the same when more
/// bytes follow, and it uses at least one and at most all of the bytes.
pub proof fn lemma_read_varint_prefix(s: Seq<u8>, rest: Seq<u8>)
    requires
        spec_read_varint(s) is Some,
    ensures
        spec_read_varint(s + rest) == spec_read_varint(s),
        1 <= spec_read_varint(s).unwrap().1 <= s.len(),
{
    lemma_read_varint_bounded_prefix(s, rest, 10);
}

/// Appends the varint encoding of `v` to `out`.
pub fn write_varint(out: &mut Vec<u8>, v: u64)
    ensures
        final(out)@ == old(out)@ + spec_varint(v as nat),
{
    let mut x = v;
    while x >= 128
        invariant
            out@ + spec_varint(x as nat) == old(out)@ + spec_varint(v as nat),
        decreases x,
    {
        let b: u8 = ((x % 128) + 128) as u8;
        let ghost before = out@;
        out.push(b);
        assert(spec_varint(x as nat) == seq![b] + spec_varint((x / 128) as nat));
        assert(before + spec_varint(x as nat) =~= out@ + spec_varint((x / 128) as nat));
        x = x / 128;
    }
    out.push(x as u8);
}

fn read_varint_bounded(s: &[u8], pos: usize, budget: u8) -> (r: Option<(u64, usize)>)
    requires
        pos <= s@.len(),
    ensures
        match spec_read_varint_bounded(s@.skip(pos as int), budget as nat) {
            Some((v, n)) => if v < varint_limit() {
                r == Some((v as u64, n as usize))
            } else {
                r is None
            },
            None => r is None,
        },
    decreases budget,
{
    let ghost t = s@.skip(pos as int);
    if budget == 0 || pos >= s.len() {
        return None;
    }
    let b = s[pos];
    assert(t[0] == b);
    if b < 128 {
        return Some((b as u64, 1));
    }
    assert(t.drop_first() =~= s@.skip(pos + 1));
    let inner = read_varint_bounded(s, pos + 1, budget - 1);
    match inner {
        None => {
            proof {
                // A value too large for 64 bits stays too large with another low group.
                match spec_read_varint_bounded(t.drop_first(), (budget - 1) as nat) {
                    Some((v, n)) => {
                        assert((b - 128) + 128 * v >= varint_limit()) by (nonlinear_arith)
                            requires
                                v >= varint_limit(),
                                b >= 128,
                        ;
                    },
                    None => {},
                }
            }
            None
        },
        Some((v, n)) => {
            let low: u64 = (b - 128) as u64;
            if v > (u64::MAX - low) / 128 {
                proof {
                    assert((b - 128) + 128 * v >= varint_limit()) by (nonlinear_arith)
                        requires
                            v > (0xffff_ffff_ffff_ffffu64 - low) / 128,
                            low == b - 128,
                    ;
                }
                None
            } else {
                assert(low + 128 * v <= u64::MAX) by (nonlinear_arith)
                    requires
                        v <= (0xffff_ffff_ffff_ffffu64 - low) / 128,
                ;
                proof {
                    lemma_read_varint_bounded_prefix(t.drop_first(), seq![], (budget - 1) as nat);
                }
                assert(n < budget) by {
                    lemma_read_bounded_len(t.drop_first(), (budget - 1) as nat);
                }
                Some((low + 128 * v, n + 1))
            }
        },
    }
}

proof fn lemma_read_bounded_len(s: Seq<u8>, budget: nat)
    requires
        spec_read_varint_bounded(s, budget) is Some,
    ensures
        spec_read_varint_bounded(s, budget).unwrap().1 <= budget,
    decreases budget,
{
    if s[0] >= 128 {
        lemma_read_bounded_len(s.drop_first(), (budget - 1) as nat);
    }
}

/// Reads a varint at `pos` of `s`: the value and the number of bytes it takes,
/// or `None` where the bytes there hold no valid varint.
pub fn read_varint(s: &[u8], pos: usize) -> (r: Option<(u64, usize)>)
    requires
        pos <= s@.len(),
    ensures
        r is None <==> spec_read_varint(s@.skip(pos as int)) is None,
        r matches Some((v, n)) ==> spec_read_varint(s@.skip(pos as int)) == Some((v as nat, n as nat)),
{
    let r = read_varint_bounded(s, pos, 10);
    proof {
        if spec_read_varint_bounded(s@.skip(pos as int), 10) is Some {
            lemma_read_bounded_len(s@.skip(pos as int), 10);
        }
    }
    r
}


/// Appends all bytes of `b` to `out`.
pub fn append_bytes(out: &mut Vec<u8>, b: &[u8])
    ensures
        final(out)@ == old(out)@ + b@,
{
    let mut i: usize = 0;
    while i < b.len()
        invariant
            i <= b@.len(),
            out@ == old(out)@ + b@.subrange(0, i as int),
        decreases b@.len() - i,
    {
        out.push(b[i]);
        assert(b@.subrange(0, i + 1) =~= b@.subrange(0, i as int).push(b@[i as int]));
        i = i + 1;
    }
    assert(b@.subrange(0, b@.len() as int) =~= b@);
}

/// Copies the bytes of `s` from `start` up to `end`.
pub fn copy_range(s: &[u8], start: usize, end: usize) -> (r: Vec<u8>)
    requires
        start <= end <= s@.len(),
    ensures
        r@ == s@.subrange(start as int, end as int),
{
    let mut r: Vec<u8> = Vec::new();
    let mut i: usize = start;
    while i < end
        invariant
            start <= i <= end,
            end <= s@.len(),
            r@ == s@.subrange(start as int, i as int),
        decreases end - i,
    {
        r.push(s[i]);
        assert(s@.subrange(start as int, i + 1) =~= s@.subrange(start as int, i as int).push(s@[i as int]));
        i = i + 1;
    }
    r
}

/// The value of a field as the wire format carries it.
#[derive(Clone, Debug, PartialEq, Eq)]
pub enum WireValue {
    /// Wire type 0.
    Varint(u64),
    /// Wire type 1: eight raw bytes.
    Fixed64(Vec<u8>),
    /// Wire type 2: a length and that many bytes.
    Bytes(Vec<u8>),
    /// Wire type 5: four raw bytes.
    Fixed32(Vec<u8>),
}

/// The abstract value of a field.
pub enum WireValueV {
    Varint(nat),
    Fixed64(Seq<u8>),
    Bytes(Seq<u8>),
    Fixed32(Seq<u8>),
}

impl View for WireValue {
    type V = WireValueV;

    open spec fn view(&self) -> WireValueV {
        match self {
            WireValue::Varint(v) => WireValueV::Varint(*v as nat),
            WireValue::Fixed64(b) => WireValueV::Fixed64(b@),
            WireValue::Bytes(b) => WireValueV::Bytes(b@),
            WireValue::Fixed32(b) => WireValueV::Fixed32(b@),
        }
    }
}

/// A field of a message: its number and its value.
#[derive(Clone, Debug, PartialEq, Eq)]
pub struct Field {
    pub number: u32,
    pub value: WireValue,
}

/// The abstract form of a field.
pub struct FieldV {
    pub number: nat,
    pub value: WireValueV,
}

impl View for Field {
    type V = FieldV;

    open spec fn view(&self) -> FieldV {
        FieldV { number: self.number as nat, value: self.value@ }
    }
}

/// The largest field number plus one.
pub open spec fn field_number_limit() -> nat {
    0x2000_0000
}

pub open spec fn wire_type(v: WireValueV) -> nat {
    match v {
        WireValueV::Varint(_) => 0,
        WireValueV::Fixed64(_) => 1,
        WireValueV::Bytes(_) => 2,
        WireValueV::Fixed32(_) => 5,
    }
}

/// A field that the wire format can carry.
pub open spec fn valid_field(f: FieldV) -> bool {
    &&& 1 <= f.number < field_number_limit()
    &&& match f.value {
        WireValueV::Varint(v) => v < varint_limit(),
        WireValueV::Fixed64(b) => b.len() == 8,
        WireValueV::Bytes(b) => b.len() < varint_limit(),
        WireValueV::Fixed32(b) => b.len() == 4,
    }
}

pub open spec fn valid_fields(fs: Seq<FieldV>) -> bool {
    forall|i: int| 0 <= i < fs.len() ==> valid_field(#[trigger] fs[i])
}

/// The encoding of a field: its key (number and wire type), then its payload.
pub open spec fn spec_encode_field(f: FieldV) -> Seq<u8> {
    spec_varint(f.number * 8 + wire_type(f.value)) + match f.value {
        WireValueV::Varint(v) => spec_varint(v),
        WireValueV::Fixed64(b) => b,
        WireValueV::Bytes(b) => spec_varint(b.len()) + b,
        WireValueV::Fixed32(b) => b,
    }
}

/// The encoding of a sequence of fields: their encodings one after the other.
pub open spec fn spec_encode_fields(fs: Seq<FieldV>) -> Seq<u8>
    decreases fs.len(),
{
    if fs.len() == 0 {
        Seq::empty()
    } else {
        spec_encode_field(fs[0]) + spec_encode_fields(fs.drop_first())
    }
}

/// Reads the payload of a field of wire type `wt` at the front of `s`.
pub open spec fn spec_read_payload(s: Seq<u8>, wt: nat) -> Option<(WireValueV, nat)> {
    if wt == 0 {
        match spec_read_varint(s) {
            Some((v, n)) => Some((WireValueV::Varint(v), n)),
            None => None,
        }
    } else if wt == 1 {
        if s.len() >= 8 {
            Some((WireValueV::Fixed64(s.subrange(0, 8)), 8))
        } else {
            None
        }
    } else if wt == 2 {
        match spec_read_varint(s) {
            Some((len, n)) => if n + len <= s.len() {
                Some((WireValueV::Bytes(s.subrange(n as int, (n + len) as int)), n + len))
            } else {
                None
            },
            None => None,
        }
    } else if wt == 5 {
        if s.len() >= 4 {
            Some((WireValueV::Fixed32(s.subrange(0, 4)), 4))
        } else {
            None
        }
    } else {
        None
    }
}

/// Reads one field from the front of `s`: the field and the number of bytes it
/// takes. A key beyond 32 bits, field number 0, a group or an unknown wire type,
/// and a truncated payload are refused.
pub open spec fn spec_read_field(s: Seq<u8>) -> Option<(FieldV, nat)> {
    match spec_read_varint(s) {
        Some((key, n)) => if key > 0xffff_ffff || key / 8 == 0 {
            None
        } else {
            match spec_read_payload(s.skip(n as int), key % 8) {
                Some((v, m)) => Some((FieldV { number: key / 8, value: v }, n + m)),
                None => None,
            }
        },
        None => None,
    }
}

/// Reads all fields of a message.
pub open spec fn spec_read_fields(s: Seq<u8>) -> Option<Seq<FieldV>>
    decreases s.len(),
{
    if s.len() == 0 {
        Some(Seq::empty())
    } else {
        match spec_read_field(s) {
            Some((f, n)) => if n == 0 || n > s.len() {
                None
            } else {
                match spec_read_fields(s.skip(n as int)) {
                    Some(fs) => Some(seq![f] + fs),
                    None => None,
                }
            },
            None => None,
        }
    }
}

proof fn lemma_read_payload_prefix(s: Seq<u8>, rest: Seq<u8>, wt: nat)
    requires
        spec_read_payload(s, wt) is Some,
    ensures
        spec_read_payload(s + rest, wt) == spec_read_payload(s, wt),
        spec_read_payload(s, wt).unwrap().1 <= s.len(),
{
    if wt == 0 || wt == 2 {
        lemma_read_varint_prefix(s, rest);
    }
    if wt == 1 {
        assert((s + rest).subrange(0, 8) =~= s.subrange(0, 8));
    }
    if wt == 5 {
        assert((s + rest).subrange(0, 4) =~= s.subrange(0, 4));
    }
    if wt == 2 {
        let (len, n) = spec_read_varint(s).unwrap();
        if n + len <= s.len() {
            assert((s + rest).subrange(n as int, (n + len) as int) =~= s.subrange(n as int, (n + len) as int));
        }
    }
}

/// A field read from the front of a byte string is read the same when more bytes
/// follow, and it takes at least one and at most all of the bytes.
pub proof fn lemma_read_field_prefix(s: Seq<u8>, rest: Seq<u8>)
    requires
        spec_read_field(s) is Some,
    ensures
        spec_read_field(s + rest) == spec_read_field(s),
        1 <= spec_read_field(s).unwrap().1 <= s.len(),
{
    lemma_read_varint_prefix(s, rest);
    let (key, n) = spec_read_varint(s).unwrap();
    assert((s + rest).skip(n as int) =~= s.skip(n as int) + rest);
    lemma_read_payload_prefix(s.skip(n as int), rest, key % 8);
}

/// Reading the encoding of a valid field, followed by anything, gives the field
/// back with the length of its encoding.
pub proof fn lemma_field_round_trip(f: FieldV, rest: Seq<u8>)
    requires
        valid_field(f),
    ensures
        spec_read_field(spec_encode_field(f) + rest) == Some((f, spec_encode_field(f).len())),
{
    let key = f.number * 8 + wire_type(f.value);
    let payload = spec_encode_field(f).skip(spec_varint(key).len() as int);
    assert(key < varint_limit());
    assert(key <= 0xffff_ffff);
    assert(key / 8 == f.number);
    assert(key % 8 == wire_type(f.value));
    let s = spec_encode_field(f) + rest;
    assert(spec_encode_field(f) =~= spec_varint(key) + payload);
    assert(s =~= spec_varint(key) + (payload + rest));
    lemma_varint_round_trip(key, payload + rest);
    let n = spec_varint(key).len();
    assert(s.skip(n as int) =~= payload + rest);
    match f.value {
        WireValueV::Varint(v) => {
            assert(payload =~= spec_varint(v));
            lemma_varint_round_trip(v, rest);
            assert(spec_encode_field(f).len() == n + spec_varint(v).len());
        },
        WireValueV::Fixed64(b) => {
            assert((payload + rest).subrange(0, 8) =~= b);
        },
        WireValueV::Bytes(b) => {
            assert(payload + rest =~= spec_varint(b.len()) + (b + rest));
            lemma_varint_round_trip(b.len(), b + rest);
            let m = spec_varint(b.len()).len();
            assert((payload + rest).subrange(m as int, (m + b.len()) as int) =~= b);
        },
        WireValueV::Fixed32(b) => {
            assert((payload + rest).subrange(0, 4) =~= b);
        },
    }
}

/// The encoding of a sequence of valid fields reads back as those fields.
pub proof fn lemma_fields_round_trip(fs: Seq<FieldV>)
    requires
        valid_fields(fs),
    ensures
        spec_read_fields(spec_encode_fields(fs)) == Some(fs),
    decreases fs.len(),
{
    if fs.len() > 0 {
        let e = spec_encode_fields(fs);
        let head = spec_encode_field(fs[0]);
        let tail = spec_encode_fields(fs.drop_first());
        assert(valid_field(fs[0]));
        assert(valid_fields(fs.drop_first())) by {
            assert forall|i: int| 0 <= i < fs.drop_first().len() implies valid_field(
                #[trigger] fs.drop_first()[i],
            ) by {
                assert(fs.drop_first()[i] == fs[i + 1]);
            }
        }
        lemma_field_round_trip(fs[0], tail);
        assert(e.skip(head.len() as int) =~= tail);
        lemma_fields_round_trip(fs.drop_first());
        assert(seq![fs[0]] + fs.drop_first() =~= fs);
    }
}

/// The encoding of two sequences of fields one after the other.
pub proof fn lemma_encode_fields_append(a: Seq<FieldV>, b: Seq<FieldV>)
    ensures
        spec_encode_fields(a + b) == spec_encode_fields(a) + spec_encode_fields(b),
    decreases a.len(),
{
    if a.len() == 0 {
        assert(a + b =~= b);
    } else {
        assert((a + b).drop_first() =~= a.drop_first() + b);
        lemma_encode_fields_append(a.drop_first(), b);
        assert((a + b)[0] == a[0]);
    }
}

/// Reading the concatenation of two messages gives the fields of the first
/// followed by the fields of the second.
pub proof fn lemma_read_fields_append(a: Seq<u8>, b: Seq<u8>)
    requires
        spec_read_fields(a) is Some,
    ensures
        spec_read_fields(a + b) == match spec_read_fields(b) {
            Some(fb) => Some(spec_read_fields(a).unwrap() + fb),
            None => None::<Seq<FieldV>>,
        },
    decreases a.len(),
{
    if a.len() == 0 {
        assert(a + b =~= b);
        match spec_read_fields(b) {
            Some(fb) => {
                assert(Seq::<FieldV>::empty() + fb =~= fb);
            },
            None => {},
        }
    } else {
        let (f, n) = spec_read_field(a).unwrap();
        lemma_read_field_prefix(a, b);
        assert((a + b).skip(n as int) =~= a.skip(n as int) + b);
        lemma_read_fields_append(a.skip(n as int), b);
        match spec_read_fields(b) {
            Some(fb) => {
                let fa = spec_read_fields(a.skip(n as int)).unwrap();
                assert(seq![f] + (fa + fb) =~= (seq![f] + fa) + fb);
            },
            None => {},
        }
    }
}


/// Appends the encoding of a field to `out`.
pub fn write_field(out: &mut Vec<u8>, f: &Field)
    requires
        valid_field(f@),
    ensures
        final(out)@ == old(out)@ + spec_encode_field(f@),
{
    let wt: u64 = match &f.value {
        WireValue::Varint(_) => 0,
        WireValue::Fixed64(_) => 1,
        WireValue::Bytes(_) => 2,
        WireValue::Fixed32(_) => 5,
    };
    let ghost start = out@;
    write_varint(out, (f.number as u64) * 8 + wt);
    let ghost after_key = out@;
    match &f.value {
        WireValue::Varint(v) => {
            write_varint(out, *v);
        },
        WireValue::Fixed64(b) => {
            append_bytes(out, b.as_slice());
        },
        WireValue::Bytes(b) => {
            write_varint(out, b.len() as u64);
            append_bytes(out, b.as_slice());
        },
        WireValue::Fixed32(b) => {
            append_bytes(out, b.as_slice());
        },
    }
    assert(out@ =~= old(out)@ + spec_encode_field(f@));
}

/// Appends the encoding of a sequence of fields to `out`.
pub fn write_fields(out: &mut Vec<u8>, fs: &Vec<Field>)
    requires
        valid_fields(fs@.map_values(|f: Field| f@)),
    ensures
        final(out)@ == old(out)@ + spec_encode_fields(fs@.map_values(|f: Field| f@)),
{
    let ghost all = fs@.map_values(|f: Field| f@);
    let mut i: usize = 0;
    assert(all.skip(0) =~= all);
    while i < fs.len()
        invariant
            i <= fs@.len(),
            all == fs@.map_values(|f: Field| f@),
            valid_fields(all),
            out@ + spec_encode_fields(all.skip(i as int)) == old(out)@ + spec_encode_fields(all),
        decreases fs@.len() - i,
    {
        assert(all[i as int] == fs@[i as int]@);
        assert(valid_field(all[i as int]));
        let ghost before = out@;
        write_field(out, &fs[i]);
        assert(all.skip(i as int).drop_first() =~= all.skip(i + 1));
        assert(all.skip(i as int)[0] == all[i as int]);
        assert(before + spec_encode_fields(all.skip(i as int)) =~= out@ + spec_encode_fields(all.skip(i + 1)));
        i = i + 1;
    }
    assert(spec_encode_fields(all.skip(fs@.len() as int)) =~= Seq::<u8>::empty()) by {
        assert(all.skip(fs@.len() as int).len() == 0);
    }
    assert(out@ =~= old(out)@ + spec_encode_fields(all));
}

/// The encoding of a sequence of fields, as a new buffer.
pub fn encode_fields(fs: &Vec<Field>) -> (r: Vec<u8>)
    requires
        valid_fields(fs@.map_values(|f: Field| f@)),
    ensures
        r@ == spec_encode_fields(fs@.map_values(|f: Field| f@)),
{
    let mut out: Vec<u8> = Vec::new();
    write_fields(&mut out, fs);
    assert(out@ =~= spec_encode_fields(fs@.map_values(|f: Field| f@)));
    out
}

/// Reads one field at `pos` of `s`: the field and the number of bytes it takes.
pub fn read_field(s: &[u8], pos: usize) -> (r: Option<(Field, usize)>)
    requires
        pos <= s@.len(),
    ensures
        match spec_read_field(s@.skip(pos as int)) {
            Some((f, n)) => r matches Some((g, m)) && g@ == f && m == n,
            None => r is None,
        },
{
    let ghost t = s@.skip(pos as int);
    let (key, n) = match read_varint(s, pos) {
        Some(x) => x,
        None => return None,
    };
    if key > 0xffff_ffff || key / 8 == 0 {
        return None;
    }
    proof {
        lemma_read_varint_prefix(t, seq![]);
        assert(t + seq![] =~= t);
        assert(spec_read_varint(t) == Some((key as nat, n as nat)));
    }
    let slen = s.len();
    assert(n <= slen - pos);
    let p = pos + n;
    let ghost u = t.skip(n as int);
    assert(u =~= s@.skip(p as int));
    let wt = key % 8;
    let number = (key / 8) as u32;
    if wt == 0 {
        match read_varint(s, p) {
            Some((v, m)) => {
                proof {
                    lemma_read_varint_prefix(u, seq![]);
                    assert(u + seq![] =~= u);
                    assert(spec_read_varint(u) == Some((v as nat, m as nat)));
                }
                assert(m <= slen - p);
                Some((Field { number, value: WireValue::Varint(v) }, n + m))
            },
            None => None,
        }
    } else if wt == 1 {
        if s.len() - p >= 8 {
            let b = copy_range(s, p, p + 8);
            assert(b@ =~= u.subrange(0, 8));
            Some((Field { number, value: WireValue::Fixed64(b) }, n + 8))
        } else {
            None
        }
    } else if wt == 2 {
        match read_varint(s, p) {
            Some((len, m)) => {
                proof {
                    lemma_read_varint_prefix(u, seq![]);
                    assert(u + seq![] =~= u);
                    assert(spec_read_varint(u) == Some((len as nat, m as nat)));
                }
                let avail = s.len() - p;
                if len as u128 + m as u128 <= avail as u128 {
                    let start = p + m;
                    let end = start + len as usize;
                    let b = copy_range(s, start, end);
                    assert(b@ =~= u.subrange(m as int, m + len));
                    Some((Field { number, value: WireValue::Bytes(b) }, n + m + len as usize))
                } else {
                    None
                }
            },
            None => None,
        }
    } else if wt == 5 {
        if s.len() - p >= 4 {
            let b = copy_range(s, p, p + 4);
            assert(b@ =~= u.subrange(0, 4));
            Some((Field { number, value: WireValue::Fixed32(b) }, n + 4))
        } else {
            None
        }
    } else {
        None
    }
}

/// Reads all fields of the message `s`, or `None` where `s` is not a sequence
/// of fields.
pub fn read_fields(s: &[u8]) -> (r: Option<Vec<Field>>)
    ensures
        match spec_read_fields(s@) {
            Some(fs) => r matches Some(v) && v@.map_values(|f: Field| f@) == fs,
            None => r is None,
        },
{
    let mut out: Vec<Field> = Vec::new();
    let mut pos: usize = 0;
    assert(s@.skip(0) =~= s@);
    proof {
        match spec_read_fields(s@) {
            Some(fs) => {
                assert(out@.map_values(|f: Field| f@) + fs =~= fs);
            },
            None => {},
        }
    }
    while pos < s.len()
        invariant
            pos <= s@.len(),
            spec_read_fields(s@) == match spec_read_fields(s@.skip(pos as int)) {
                Some(fs) => Some(out@.map_values(|f: Field| f@) + fs),
                None => None::<Seq<FieldV>>,
            },
        decreases s@.len() - pos,
    {
        let ghost t = s@.skip(pos as int);
        match read_field(s, pos) {
            Some((f, n)) => {
                proof {
                    lemma_read_field_prefix(t, seq![]);
                    assert(t + seq![] =~= t);
                    assert(t.skip(n as int) =~= s@.skip(pos + n));
                    match spec_read_fields(s@.skip(pos + n)) {
                        Some(fs) => {
                            assert(out@.map_values(|f: Field| f@) + (seq![f@] + fs) =~= out@.push(f).map_values(
                                |f: Field| f@,
                            ) + fs);
                        },
                        None => {},
                    }
                }
                out.push(f);
                pos = pos + n;
            },
            None => {
                return None;
            },
        }
    }
    assert(s@.skip(pos as int).len() == 0);
    assert(out@.map_values(|f: Field| f@) + Seq::<FieldV>::empty() =~= out@.map_values(|f: Field| f@));
    Some(out)
}

} // verus!
