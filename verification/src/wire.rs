//! The protobuf wire format that Discord's settings protos use: fields, varints, and
//! length-delimited messages, read by offsets into the buffer they came from.
use vstd::prelude::*;

verus! {

/// The wire format could not be read, or a value was out of its range.
#[derive(Clone, Copy, Debug, PartialEq, Eq, Structural)]
pub struct DecodeError;

/// The largest field number that protobuf allows.
pub const MAX_FIELD_NUMBER: u64 = 536870911;

pub const WIRE_VARINT: u8 = 0;

pub const WIRE_FIXED64: u8 = 1;

pub const WIRE_LEN: u8 = 2;

pub const WIRE_FIXED32: u8 = 5;

/// 128 to the power `n`.
pub open spec fn pow128(n: nat) -> nat
    decreases n,
{
    if n == 0 {
        1
    } else {
        128 * pow128((n - 1) as nat)
    }
}

/// The varint that starts at `i`, as (value, end), reading at most `10 - k` bytes.
pub open spec fn varint_from(s: Seq<u8>, i: int, k: nat) -> Option<(nat, int)>
    decreases 10 - k,
{
    if k >= 10 || i < 0 || i >= s.len() {
        None
    } else if s[i] < 128 {
        Some((s[i] as nat, i + 1))
    } else {
        match varint_from(s, i + 1, k + 1) {
            Some((v, e)) => Some(((s[i] - 128 + 128 * v) as nat, e)),
            None => None,
        }
    }
}

/// The varint that starts at `i`: at most ten bytes, and a value that fits in 64 bits.
pub open spec fn varint(s: Seq<u8>, i: int) -> Option<(nat, int)> {
    match varint_from(s, i, 0) {
        Some((v, e)) => if v <= u64::MAX {
            Some((v, e))
        } else {
            None
        },
        None => None,
    }
}

/// A field as read from a buffer: its number and wire type, its varint value (or, for a
/// length-delimited field, its length), and where its key, payload and end lie.
pub struct FieldSpec {
    pub number: nat,
    pub wire_type: nat,
    pub value: nat,
    pub start: int,
    pub payload: int,
    pub end: int,
}

/// The field whose key starts at `i`.
pub open spec fn field_at(s: Seq<u8>, i: int) -> Option<FieldSpec> {
    match varint(s, i) {
        None => None,
        Some((key, p)) => {
            let number = key / 8;
            let wire_type = key % 8;
            if number == 0 || number > MAX_FIELD_NUMBER {
                None
            } else if wire_type == 0 {
                match varint(s, p) {
                    Some((v, e)) => Some(
                        FieldSpec { number, wire_type, value: v, start: i, payload: p, end: e },
                    ),
                    None => None,
                }
            } else if wire_type == 1 {
                if p + 8 <= s.len() {
                    Some(FieldSpec { number, wire_type, value: 8, start: i, payload: p, end: p + 8 })
                } else {
                    None
                }
            } else if wire_type == 2 {
                match varint(s, p) {
                    Some((n, q)) => if q + n <= s.len() {
                        Some(
                            FieldSpec {
                                number,
                                wire_type,
                                value: n,
                                start: i,
                                payload: q,
                                end: q + n,
                            },
                        )
                    } else {
                        None
                    },
                    None => None,
                }
            } else if wire_type == 5 {
                if p + 4 <= s.len() {
                    Some(FieldSpec { number, wire_type, value: 4, start: i, payload: p, end: p + 4 })
                } else {
                    None
                }
            } else {
                None
            }
        },
    }
}

/// The fields from offset `i` to the end of `s`, or `None` where any of them is malformed.
pub open spec fn fields_from(s: Seq<u8>, i: int) -> Option<Seq<FieldSpec>>
    decreases s.len() - i,
{
    if i < 0 || i > s.len() {
        None
    } else if i == s.len() {
        Some(Seq::empty())
    } else {
        match field_at(s, i) {
            Some(f) => if i < f.end <= s.len() {
                match fields_from(s, f.end) {
                    Some(rest) => Some(seq![f] + rest),
                    None => None,
                }
            } else {
                None
            },
            None => None,
        }
    }
}

/// The fields of a whole message.
pub open spec fn spec_fields(s: Seq<u8>) -> Option<Seq<FieldSpec>> {
    fields_from(s, 0)
}

/// The bytes of a field's payload.
pub open spec fn payload_of(s: Seq<u8>, f: FieldSpec) -> Seq<u8> {
    s.subrange(f.payload, f.end)
}

/// The bytes of a whole field: key, length and payload.
pub open spec fn raw_of(s: Seq<u8>, f: FieldSpec) -> Seq<u8> {
    s.subrange(f.start, f.end)
}

/// The varint encoding of `v`: seven bits a byte, low bits first.
pub open spec fn encode_varint(v: nat) -> Seq<u8>
    decreases v,
{
    if v < 128 {
        seq![v as u8]
    } else {
        seq![(v % 128 + 128) as u8] + encode_varint(v / 128)
    }
}

/// A length-delimited field numbered `number` that holds `payload`.
pub open spec fn message_bytes(number: nat, payload: Seq<u8>) -> Seq<u8> {
    encode_varint(number * 8 + 2) + encode_varint(payload.len()) + payload
}

/// A length-delimited field numbered `number` whose payload is field 1 holding `value`:
/// how the settings protos wrap a boolean or an integer.
pub open spec fn integer_wrapper_bytes(number: nat, value: nat) -> Seq<u8> {
    message_bytes(number, seq![8u8] + encode_varint(value))
}

/// A field read from a buffer, located by offsets into it.
#[derive(Clone, Copy, Debug, PartialEq, Eq, Structural)]
pub struct Field {
    pub number: u64,
    pub wire_type: u8,
    pub value: u64,
    pub start: usize,
    pub payload: usize,
    pub end: usize,
}

impl View for Field {
    type V = FieldSpec;

    open spec fn view(&self) -> FieldSpec {
        FieldSpec {
            number: self.number as nat,
            wire_type: self.wire_type as nat,
            value: self.value as nat,
            start: self.start as int,
            payload: self.payload as int,
            end: self.end as int,
        }
    }
}

proof fn lemma_varint_from_bound(s: Seq<u8>, i: int, k: nat)
    ensures
        varint_from(s, i, k) matches Some((v, e)) ==> v < pow128((10 - k) as nat) && i < e
            <= s.len() && e - i <= 10 - k,
    decreases 10 - k,
{
    if k < 10 && 0 <= i < s.len() {
        lemma_pow128_pos((10 - (k + 1)) as nat);
        assert(pow128((10 - k) as nat) == 128 * pow128((10 - (k + 1)) as nat));
        if s[i] >= 128 {
            lemma_varint_from_bound(s, i + 1, k + 1);
        }
    }
}

proof fn lemma_pow128_pos(n: nat)
    ensures
        pow128(n) >= 1,
    decreases n,
{
    if n > 0 {
        lemma_pow128_pos((n - 1) as nat);
    }
}

proof fn lemma_pow128_small(n: nat)
    requires
        n <= 10,
    ensures
        pow128(n) <= pow128(10),
        pow128(10) == 1180591620717411303424,
    decreases n,
{
    reveal_with_fuel(pow128, 11);
    if n < 10 {
        lemma_pow128_monotone(n, 10);
    }
}

proof fn lemma_pow128_monotone(a: nat, b: nat)
    requires
        a <= b,
    ensures
        pow128(a) <= pow128(b),
    decreases b,
{
    if a < b {
        lemma_pow128_monotone(a, (b - 1) as nat);
        assert(pow128(b) == 128 * pow128((b - 1) as nat));
    }
}

fn read_varint_from(s: &[u8], i: usize, k: usize) -> (r: Option<(u128, usize)>)
    requires
        k <= 10,
    ensures
        match varint_from(s@, i as int, k as nat) {
            Some((v, e)) => r matches Some((a, b)) && a == v && b == e && i < e <= s.len(),
            None => r is None,
        },
    decreases 10 - k,
{
    proof {
        lemma_varint_from_bound(s@, i as int, k as nat);
        lemma_pow128_small((10 - k) as nat);
    }
    if k >= 10 || i >= s.len() {
        return None;
    }
    let b = s[i];
    if b < 128 {
        return Some((b as u128, i + 1));
    }
    match read_varint_from(s, i + 1, k + 1) {
        Some((v, e)) => {
            proof {
                lemma_varint_from_bound(s@, i + 1, (k + 1) as nat);
                lemma_pow128_small((10 - (k + 1)) as nat);
                lemma_pow128_monotone((10 - (k + 1)) as nat, 10);
            }
            Some(((b - 128) as u128 + 128 * v, e))
        },
        None => None,
    }
}

/// Reads the varint that starts at `i`.
pub fn read_varint(s: &[u8], i: usize) -> (r: Option<(u64, usize)>)
    ensures
        match varint(s@, i as int) {
            Some((v, e)) => r matches Some((a, b)) && a == v && b == e && i < e <= s.len(),
            None => r is None,
        },
{
    proof {
        lemma_varint_from_bound(s@, i as int, 0);
        lemma_pow128_small(10);
    }
    match read_varint_from(s, i, 0) {
        Some((v, e)) => if v <= u64::MAX as u128 {
            Some((v as u64, e))
        } else {
            None
        },
        None => None,
    }
}

/// Reads the field whose key starts at `i`.
pub fn read_field(s: &[u8], i: usize) -> (r: Option<Field>)
    ensures
        match field_at(s@, i as int) {
            Some(f) => r matches Some(x) && x@ == f,
            None => r is None,
        },
{
    proof {
        lemma_varint_from_bound(s@, i as int, 0);
    }
    let (key, p) = match read_varint(s, i) {
        Some(x) => x,
        None => return None,
    };
    let number = key / 8;
    let wire_type = (key % 8) as u8;
    if number == 0 || number > MAX_FIELD_NUMBER {
        return None;
    }
    proof {
        lemma_varint_from_bound(s@, p as int, 0);
        assert(varint(s@, i as int) == Some((key as nat, p as int)));
        assert(wire_type as nat == key as nat % 8);
    }
    if wire_type == 0 {
        match read_varint(s, p) {
            Some((v, e)) => Some(Field { number, wire_type, value: v, start: i, payload: p, end: e }),
            None => None,
        }
    } else if wire_type == 1 {
        if p <= s.len() && 8 <= s.len() - p {
            Some(Field { number, wire_type, value: 8, start: i, payload: p, end: p + 8 })
        } else {
            None
        }
    } else if wire_type == 2 {
        match read_varint(s, p) {
            Some((n, q)) => if q <= s.len() && n <= (s.len() - q) as u64 {
                Some(
                    Field {
                        number,
                        wire_type,
                        value: n,
                        start: i,
                        payload: q,
                        end: q + n as usize,
                    },
                )
            } else {
                None
            },
            None => None,
        }
    } else if wire_type == 5 {
        if p <= s.len() && 4 <= s.len() - p {
            Some(Field { number, wire_type, value: 4, start: i, payload: p, end: p + 4 })
        } else {
            None
        }
    } else {
        None
    }
}

/// Reads every field of a message, in order.
pub fn fields(s: &[u8]) -> (r: Result<Vec<Field>, DecodeError>)
    ensures
        match spec_fields(s@) {
            Some(fs) => r matches Ok(v) && v@.map_values(|f: Field| f@) == fs,
            None => r is Err,
        },
{
    let mut out: Vec<Field> = Vec::new();
    let mut pos: usize = 0;
    while pos < s.len()
        invariant
            pos <= s.len(),
            fields_from(s@, 0) == match fields_from(s@, pos as int) {
                Some(rest) => Some(out@.map_values(|f: Field| f@) + rest),
                None => None::<Seq<FieldSpec>>,
            },
        decreases s.len() - pos,
    {
        let ghost before = out@.map_values(|f: Field| f@);
        match read_field(s, pos) {
            Some(f) => {
                if f.end <= pos || f.end > s.len() {
                    return Err(DecodeError);
                }
                proof {
                    match fields_from(s@, f.end as int) {
                        Some(rest) => {
                            assert(out@.push(f).map_values(|f: Field| f@) =~= before.push(f@));
                            assert(before + (seq![f@] + rest) =~= before.push(f@) + rest);
                        },
                        None => {},
                    }
                }
                out.push(f);
                pos = f.end;
            },
            None => {
                return Err(DecodeError);
            },
        }
    }
    proof {
        assert(out@.map_values(|f: Field| f@) + Seq::<FieldSpec>::empty() =~= out@.map_values(
            |f: Field| f@,
        ));
    }
    Ok(out)
}

/// Appends the varint encoding of `v`.
pub fn push_varint(out: &mut Vec<u8>, v: u64)
    ensures
        final(out)@ == old(out)@ + encode_varint(v as nat),
{
    let ghost v0 = v;
    let mut v = v;
    while v >= 128
        invariant
            old(out)@ + encode_varint(v0 as nat) == out@ + encode_varint(v as nat),
        decreases v,
    {
        let ghost prev = out@;
        out.push((v % 128 + 128) as u8);
        proof {
            assert(encode_varint(v as nat) == seq![(v % 128 + 128) as u8] + encode_varint(
                (v / 128) as nat,
            ));
            assert(prev + encode_varint(v as nat) =~= out@ + encode_varint((v / 128) as nat));
        }
        v = v / 128;
    }
    out.push(v as u8);
    proof {
        assert(encode_varint(v as nat) == seq![v as u8]);
    }
}

/// Appends `s[from..to]`.
pub fn push_range(out: &mut Vec<u8>, s: &[u8], from: usize, to: usize)
    requires
        from <= to <= s.len(),
    ensures
        final(out)@ == old(out)@ + s@.subrange(from as int, to as int),
{
    let mut k = from;
    while k < to
        invariant
            from <= k <= to <= s.len(),
            out@ == old(out)@ + s@.subrange(from as int, k as int),
        decreases to - k,
    {
        out.push(s[k]);
        proof {
            assert(s@.subrange(from as int, k + 1) =~= s@.subrange(from as int, k as int).push(
                s@[k as int],
            ));
        }
        k = k + 1;
    }
}

/// Appends a length-delimited field numbered `number` that holds `payload`.
pub fn message(number: u64, payload: &[u8], out: &mut Vec<u8>)
    requires
        1 <= number <= MAX_FIELD_NUMBER,
    ensures
        final(out)@ == old(out)@ + message_bytes(number as nat, payload@),
{
    push_varint(out, number * 8 + 2);
    push_varint(out, payload.len() as u64);
    push_range(out, payload, 0, payload.len());
    proof {
        assert(payload@.subrange(0, payload@.len() as int) =~= payload@);
        assert(old(out)@ + encode_varint(number as nat * 8 + 2) + encode_varint(payload@.len())
            + payload@ =~= old(out)@ + message_bytes(number as nat, payload@));
    }
}

/// Appends a length-delimited field numbered `number` whose payload is field 1 holding `value`.
pub fn integer_wrapper(number: u64, value: u64, out: &mut Vec<u8>)
    requires
        1 <= number <= MAX_FIELD_NUMBER,
    ensures
        final(out)@ == old(out)@ + integer_wrapper_bytes(number as nat, value as nat),
{
    let mut inner: Vec<u8> = Vec::new();
    inner.push(8u8);
    push_varint(&mut inner, value);
    proof {
        assert(inner@ =~= seq![8u8] + encode_varint(value as nat));
    }
    message(number, inner.as_slice(), out);
}

} // verus!
