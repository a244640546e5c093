//! Why a settings patch keeps every wire field that it does not change: a field's parse
//! depends only on its own bytes, so copying fields verbatim copies what they mean.
use crate::model::{Change, Overview};
use crate::protocol::{
    base64_standard_decode, bool_nat, count_number, first_number, kept_raw, patch_field,
    patch_payload, patch_subtree, patch_target, spec_bool_wrapper, spec_decode_response,
    spec_decode_wire, spec_flag, spec_overview, spec_part, spec_streaming, spec_u32_field,
    spec_version, unique_number,
    SettingsResponse, SettingsSpec, MAX_SETTINGS_RESPONSE, MAX_SUBTREE,
};
use crate::wire::{
    encode_varint, field_at, fields_from, integer_wrapper_bytes, message_bytes, payload_of, pow128,
    raw_of, spec_fields, varint, varint_from, FieldSpec, MAX_FIELD_NUMBER,
};
use vstd::prelude::*;

verus! {

/// The end of a varint that was read.
pub open spec fn vend(o: Option<(nat, int)>) -> int {
    match o {
        Some((_, e)) => e,
        None => 0,
    }
}

/// The value of a varint that was read.
pub open spec fn vval(o: Option<(nat, int)>) -> nat {
    match o {
        Some((v, _)) => v,
        None => 0,
    }
}

/// `f` moved by `d` bytes.
pub open spec fn shift(f: FieldSpec, d: int) -> FieldSpec {
    FieldSpec { start: f.start + d, payload: f.payload + d, end: f.end + d, ..f }
}

pub open spec fn shift_seq(fs: Seq<FieldSpec>, d: int) -> Seq<FieldSpec> {
    fs.map_values(|f: FieldSpec| shift(f, d))
}

/// Two fields, each read from its own buffer, that mean the same: same number, wire type,
/// value and payload bytes.
pub open spec fn same_field(s1: Seq<u8>, f1: FieldSpec, s2: Seq<u8>, f2: FieldSpec) -> bool {
    &&& f1.number == f2.number
    &&& f1.wire_type == f2.wire_type
    &&& f1.value == f2.value
    &&& payload_of(s1, f1) == payload_of(s2, f2)
}

pub open spec fn same_fields(
    s1: Seq<u8>,
    fs1: Seq<FieldSpec>,
    s2: Seq<u8>,
    fs2: Seq<FieldSpec>,
) -> bool {
    &&& fs1.len() == fs2.len()
    &&& forall|k: int| 0 <= k < fs1.len() ==> same_field(s1, #[trigger] fs1[k], s2, fs2[k])
}

/// The fields of `fs` that are not numbered `n`, in order.
pub open spec fn filtered(fs: Seq<FieldSpec>, n: nat) -> Seq<FieldSpec>
    decreases fs.len(),
{
    if fs.len() == 0 {
        Seq::empty()
    } else {
        filtered(fs.drop_last(), n) + if fs.last().number != n {
            seq![fs.last()]
        } else {
            Seq::empty()
        }
    }
}

/// The raw bytes of the fields `gs` of `s`, one after another.
pub open spec fn raw_concat(s: Seq<u8>, gs: Seq<FieldSpec>) -> Seq<u8>
    decreases gs.len(),
{
    if gs.len() == 0 {
        Seq::empty()
    } else {
        raw_concat(s, gs.drop_last()) + raw_of(s, gs.last())
    }
}

/// Every field of `gs` is what `s` holds at its start.
pub open spec fn parsed_in(s: Seq<u8>, gs: Seq<FieldSpec>) -> bool {
    forall|k: int| 0 <= k < gs.len() ==> field_at(s, (#[trigger] gs[k]).start) == Some(gs[k])
}

/// `t` holds at `j` the `len` bytes that `s` holds at `i`.
pub open spec fn same_bytes(t: Seq<u8>, j: int, s: Seq<u8>, i: int, len: int) -> bool {
    &&& 0 <= j
    &&& 0 <= i
    &&& 0 <= len
    &&& j + len <= t.len()
    &&& i + len <= s.len()
    &&& t.subrange(j, j + len) == s.subrange(i, i + len)
}

proof fn lemma_same_bytes_narrow(t: Seq<u8>, j: int, s: Seq<u8>, i: int, len: int, d: int, len2: int)
    requires
        same_bytes(t, j, s, i, len),
        0 <= d,
        0 <= len2,
        d + len2 <= len,
    ensures
        same_bytes(t, j + d, s, i + d, len2),
{
    assert(t.subrange(j + d, j + d + len2) =~= t.subrange(j, j + len).subrange(d, d + len2));
    assert(s.subrange(i + d, i + d + len2) =~= s.subrange(i, i + len).subrange(d, d + len2));
}

proof fn lemma_same_bytes_at(t: Seq<u8>, j: int, s: Seq<u8>, i: int, len: int, m: int)
    requires
        same_bytes(t, j, s, i, len),
        0 <= m < len,
    ensures
        t[j + m] == s[i + m],
{
    assert(t.subrange(j, j + len)[m] == s.subrange(i, i + len)[m]);
}

proof fn lemma_varint_from_moved(s: Seq<u8>, i: int, t: Seq<u8>, j: int, k: nat)
    requires
        varint_from(s, i, k) is Some,
        same_bytes(t, j, s, i, vend(varint_from(s, i, k)) - i),
    ensures
        varint_from(t, j, k) == Some(
            (vval(varint_from(s, i, k)), j + (vend(varint_from(s, i, k)) - i)),
        ),
    decreases 10 - k,
{
    lemma_varint_end(s, i, k);
    let len = vend(varint_from(s, i, k)) - i;
    lemma_same_bytes_at(t, j, s, i, len, 0);
    if s[i] >= 128 {
        lemma_varint_end(s, i + 1, k + 1);
        lemma_same_bytes_narrow(t, j, s, i, len, 1, len - 1);
        lemma_varint_from_moved(s, i + 1, t, j + 1, k + 1);
    }
}

proof fn lemma_varint_moved(s: Seq<u8>, i: int, t: Seq<u8>, j: int)
    requires
        varint(s, i) is Some,
        same_bytes(t, j, s, i, vend(varint(s, i)) - i),
    ensures
        varint(t, j) == Some((vval(varint(s, i)), j + (vend(varint(s, i)) - i))),
{
    lemma_varint_from_moved(s, i, t, j, 0);
}

proof fn lemma_varint_end(s: Seq<u8>, i: int, k: nat)
    ensures
        varint_from(s, i, k) matches Some((v, e)) ==> 0 <= i < e <= s.len(),
    decreases 10 - k,
{
    if k < 10 && 0 <= i < s.len() && s[i] >= 128 {
        lemma_varint_end(s, i + 1, k + 1);
    }
}

/// A field's parse depends only on its own bytes.
pub proof fn lemma_field_moved(s: Seq<u8>, i: int, t: Seq<u8>, j: int)
    requires
        field_at(s, i) is Some,
        same_bytes(t, j, s, i, field_at(s, i)->0.end - i),
    ensures
        field_at(t, j) == Some(shift(field_at(s, i)->0, j - i)),
{
    let f = field_at(s, i)->0;
    let len = f.end - i;
    lemma_varint_end(s, i, 0);
    let (key, p) = varint(s, i)->0;
    lemma_field_bounds(s, i);
    lemma_varint_end(s, p, 0);
    lemma_same_bytes_narrow(t, j, s, i, len, 0, p - i);
    lemma_varint_moved(s, i, t, j);
    let pt = j + (p - i);
    if key % 8 == 0 || key % 8 == 2 {
        lemma_varint_end(s, p, 0);
        lemma_same_bytes_narrow(t, j, s, i, len, p - i, vend(varint(s, p)) - p);
        lemma_varint_moved(s, p, t, pt);
    }
}

proof fn lemma_field_bounds(s: Seq<u8>, i: int)
    ensures
        field_at(s, i) matches Some(f) ==> 0 <= i == f.start < f.payload <= f.end <= s.len()
            && 1 <= f.number <= MAX_FIELD_NUMBER,
{
    crate::protocol::lemma_field_at_bounds(s, i);
}

/// Parsing after a prefix: the fields of `y` from `j` are those of `a + y` from `a.len() + j`,
/// moved by `a.len()`.
pub proof fn lemma_fields_shift(a: Seq<u8>, y: Seq<u8>, j: int)
    requires
        0 <= j <= y.len(),
    ensures
        fields_from(a + y, a.len() + j) == match fields_from(y, j) {
            Some(hs) => Some(shift_seq(hs, a.len() as int)),
            None => None,
        },
    decreases y.len() - j,
{
    let t = a + y;
    let i = a.len() + j;
    if j == y.len() {
        assert(shift_seq(Seq::<FieldSpec>::empty(), a.len() as int) =~= Seq::empty());
    } else {
        lemma_field_bounds(y, j);
        lemma_field_bounds(t, i);
        match field_at(y, j) {
            Some(f) => {
                assert(t.subrange(i, i + (f.end - j)) =~= y.subrange(j, f.end));
                lemma_field_moved(y, j, t, i);
                lemma_fields_shift(a, y, f.end);
                assert(shift(f, a.len() as int).end == a.len() + f.end);
                match fields_from(y, f.end) {
                    Some(rest) => {
                        assert(seq![shift(f, a.len() as int)] + shift_seq(rest, a.len() as int)
                            =~= shift_seq(seq![f] + rest, a.len() as int));
                    },
                    None => {},
                }
            },
            None => {
                if field_at(t, i) is Some {
                    let g = field_at(t, i)->0;
                    assert(y.subrange(j, j + (g.end - i)) =~= t.subrange(i, g.end));
                    lemma_field_moved(t, i, y, j);
                }
            },
        }
    }
}

proof fn lemma_parsed_in(s: Seq<u8>, i: int)
    requires
        fields_from(s, i) is Some,
    ensures
        parsed_in(s, fields_from(s, i)->0),
    decreases s.len() - i,
{
    if 0 <= i < s.len() {
        let f = field_at(s, i)->0;
        lemma_parsed_in(s, f.end);
        let rest = fields_from(s, f.end)->0;
        let all = seq![f] + rest;
        assert forall|k: int| 0 <= k < all.len() implies field_at(s, (#[trigger] all[k]).start)
            == Some(all[k]) by {
            if k > 0 {
                assert(all[k] == rest[k - 1]);
            } else {
                lemma_field_bounds(s, i);
            }
        }
    }
}

proof fn lemma_filtered_sub(fs: Seq<FieldSpec>, n: nat)
    ensures
        forall|k: int|
            0 <= k < filtered(fs, n).len() ==> exists|j: int|
                0 <= j < fs.len() && fs[j] == #[trigger] filtered(fs, n)[k],
        forall|k: int| 0 <= k < filtered(fs, n).len() ==> (#[trigger] filtered(fs, n)[k]).number != n,
    decreases fs.len(),
{
    if fs.len() > 0 {
        lemma_filtered_sub(fs.drop_last(), n);
        let p = filtered(fs.drop_last(), n);
        let q = filtered(fs, n);
        assert forall|k: int| 0 <= k < q.len() implies exists|j: int|
            0 <= j < fs.len() && fs[j] == #[trigger] q[k] by {
            if k < p.len() {
                assert(q[k] == p[k]);
                let j = choose|j: int| 0 <= j < fs.drop_last().len() && fs.drop_last()[j] == p[k];
                assert(fs[j] == q[k]);
            } else {
                assert(q[k] == fs.last());
                assert(fs[fs.len() - 1] == q[k]);
            }
        }
        assert forall|k: int| 0 <= k < q.len() implies (#[trigger] q[k]).number != n by {
            if k < p.len() {
                assert(q[k] == p[k]);
            }
        }
    }
}

proof fn lemma_parsed_filtered(s: Seq<u8>, fs: Seq<FieldSpec>, n: nat)
    requires
        parsed_in(s, fs),
    ensures
        parsed_in(s, filtered(fs, n)),
{
    lemma_filtered_sub(fs, n);
    let q = filtered(fs, n);
    assert forall|k: int| 0 <= k < q.len() implies field_at(s, (#[trigger] q[k]).start) == Some(
        q[k],
    ) by {
        let j = choose|j: int| 0 <= j < fs.len() && fs[j] == q[k];
        assert(field_at(s, fs[j].start) == Some(fs[j]));
    }
}

proof fn lemma_kept_raw(s: Seq<u8>, fs: Seq<FieldSpec>, n: nat)
    ensures
        kept_raw(s, fs, n) == raw_concat(s, filtered(fs, n)),
    decreases fs.len(),
{
    if fs.len() > 0 {
        lemma_kept_raw(s, fs.drop_last(), n);
        let p = filtered(fs.drop_last(), n);
        if fs.last().number != n {
            let q = p + seq![fs.last()];
            assert(q.drop_last() =~= p);
            assert(q.last() == fs.last());
        } else {
            assert(p + Seq::<FieldSpec>::empty() =~= p);
            assert(kept_raw(s, fs.drop_last(), n) + Seq::<u8>::empty() =~= kept_raw(
                s,
                fs.drop_last(),
                n,
            ));
        }
    }
}

/// One field's raw bytes, followed by more fields, read as the field and then those fields.
proof fn lemma_single_raw(s: Seq<u8>, g: FieldSpec, y: Seq<u8>)
    requires
        field_at(s, g.start) == Some(g),
        fields_from(y, 0) is Some,
    ensures
        fields_from(raw_of(s, g) + y, 0) == Some(
            seq![shift(g, -g.start)] + shift_seq(fields_from(y, 0)->0, g.end - g.start),
        ),
{
    lemma_field_bounds(s, g.start);
    let r = raw_of(s, g);
    let t = r + y;
    assert(t.subrange(0, g.end - g.start) =~= s.subrange(g.start, g.end));
    lemma_field_moved(s, g.start, t, 0);
    lemma_fields_shift(r, y, 0);
    assert(r.len() == g.end - g.start);
}

proof fn lemma_same_field_shift(s: Seq<u8>, g: FieldSpec, y: Seq<u8>)
    requires
        0 <= g.start <= g.payload <= g.end <= s.len(),
    ensures
        same_field(raw_of(s, g) + y, shift(g, -g.start), s, g),
{
    let t = raw_of(s, g) + y;
    let h = shift(g, -g.start);
    assert(payload_of(t, h) =~= payload_of(s, g));
}

proof fn lemma_same_shift_seq(a: Seq<u8>, y: Seq<u8>, hs: Seq<FieldSpec>)
    requires
        forall|k: int| 0 <= k < hs.len() ==> 0 <= (#[trigger] hs[k]).payload <= hs[k].end <= y.len(),
    ensures
        same_fields(a + y, shift_seq(hs, a.len() as int), y, hs),
{
    let t = a + y;
    let ws = shift_seq(hs, a.len() as int);
    assert forall|k: int| 0 <= k < ws.len() implies same_field(t, #[trigger] ws[k], y, hs[k]) by {
        assert(ws[k] == shift(hs[k], a.len() as int));
        assert(payload_of(t, ws[k]) =~= payload_of(y, hs[k]));
    }
}

proof fn lemma_fields_in_bounds(s: Seq<u8>, i: int)
    requires
        fields_from(s, i) is Some,
    ensures
        forall|k: int|
            0 <= k < fields_from(s, i)->0.len() ==> 0 <= (#[trigger] fields_from(s, i)->0[k]).start
                < fields_from(s, i)->0[k].payload <= fields_from(s, i)->0[k].end <= s.len(),
    decreases s.len() - i,
{
    if 0 <= i < s.len() {
        let f = field_at(s, i)->0;
        lemma_field_bounds(s, i);
        lemma_fields_in_bounds(s, f.end);
        let rest = fields_from(s, f.end)->0;
        let all = seq![f] + rest;
        assert forall|k: int| 0 <= k < all.len() implies 0 <= (#[trigger] all[k]).start
            < all[k].payload <= all[k].end <= s.len() by {
            if k > 0 {
                assert(all[k] == rest[k - 1]);
            }
        }
    }
}

/// The raw bytes of parsed fields, followed by more fields, read back as the same fields.
pub proof fn lemma_concat(s: Seq<u8>, gs: Seq<FieldSpec>, y: Seq<u8>)
    requires
        parsed_in(s, gs),
        fields_from(y, 0) is Some,
    ensures
        fields_from(raw_concat(s, gs) + y, 0) is Some,
        fields_from(raw_concat(s, gs) + y, 0)->0.len() == gs.len() + fields_from(y, 0)->0.len(),
        same_fields(
            raw_concat(s, gs) + y,
            fields_from(raw_concat(s, gs) + y, 0)->0.take(gs.len() as int),
            s,
            gs,
        ),
        same_fields(
            raw_concat(s, gs) + y,
            fields_from(raw_concat(s, gs) + y, 0)->0.skip(gs.len() as int),
            y,
            fields_from(y, 0)->0,
        ),
    decreases gs.len(),
{
    let hs = fields_from(y, 0)->0;
    lemma_fields_in_bounds(y, 0);
    if gs.len() == 0 {
        assert(raw_concat(s, gs) + y =~= y);
        let ws = fields_from(y, 0)->0;
        assert(ws.take(0) =~= Seq::<FieldSpec>::empty());
        assert(ws.skip(0) =~= ws);
        assert forall|k: int| 0 <= k < ws.len() implies same_field(y, #[trigger] ws.skip(0)[k], y, hs[k]) by {
            assert(ws.skip(0)[k] == ws[k]);
        }
    } else {
        let g = gs.last();
        let gs1 = gs.drop_last();
        assert(gs[gs.len() - 1] == g);
        assert(field_at(s, g.start) == Some(g));
        lemma_field_bounds(s, g.start);
        assert(parsed_in(s, gs1)) by {
            assert forall|k: int| 0 <= k < gs1.len() implies field_at(s, (#[trigger] gs1[k]).start)
                == Some(gs1[k]) by {
                assert(gs1[k] == gs[k]);
            }
        }
        let r = raw_of(s, g);
        let y1 = r + y;
        lemma_single_raw(s, g, y);
        let hs1 = fields_from(y1, 0)->0;
        assert(hs1 == seq![shift(g, -g.start)] + shift_seq(hs, r.len() as int));
        lemma_concat(s, gs1, y1);
        let whole = raw_concat(s, gs1) + y1;
        assert(raw_concat(s, gs) + y =~= whole);
        let ws = fields_from(whole, 0)->0;
        let n1 = gs1.len() as int;
        // The first fields are those of gs1; the next is g; the rest are those of y.
        lemma_same_field_shift(s, g, y);
        lemma_same_shift_seq(r, y, hs);
        assert forall|k: int| 0 <= k < gs.len() implies same_field(
            whole,
            #[trigger] ws.take(gs.len() as int)[k],
            s,
            gs[k],
        ) by {
            assert(ws.take(gs.len() as int)[k] == ws[k]);
            if k < n1 {
                assert(ws.take(n1)[k] == ws[k]);
                assert(gs1[k] == gs[k]);
            } else {
                assert(ws.skip(n1)[0] == ws[k]);
                assert(hs1[0] == shift(g, -g.start));
            }
        }
        assert forall|k: int| 0 <= k < hs.len() implies same_field(
            whole,
            #[trigger] ws.skip(gs.len() as int)[k],
            y,
            hs[k],
        ) by {
            assert(ws.skip(gs.len() as int)[k] == ws.skip(n1)[k + 1]);
            assert(hs1[k + 1] == shift_seq(hs, r.len() as int)[k]);
            assert(shift_seq(hs, r.len() as int)[k] == shift(hs[k], r.len() as int));
            assert(payload_of(y1, hs1[k + 1]) =~= payload_of(y, hs[k]));
        }
    }
}

proof fn lemma_varint_from_encode(pre: Seq<u8>, x: nat, rest: Seq<u8>, k: nat)
    requires
        encode_varint(x).len() + k <= 10,
    ensures
        varint_from(pre + encode_varint(x) + rest, pre.len() as int, k) == Some(
            (x, (pre.len() + encode_varint(x).len()) as int),
        ),
    decreases x,
{
    let t = pre + encode_varint(x) + rest;
    assert(t[pre.len() as int] == encode_varint(x)[0]);
    if x >= 128 {
        let b = (x % 128 + 128) as u8;
        let pre2 = pre.push(b);
        assert(encode_varint(x) == seq![b] + encode_varint(x / 128));
        assert(t =~= pre2 + encode_varint(x / 128) + rest);
        lemma_varint_from_encode(pre2, x / 128, rest, k + 1);
    }
}

proof fn lemma_encode_varint_bound(x: nat)
    requires
        x <= u64::MAX,
    ensures
        1 <= encode_varint(x).len() <= 10,
{
    reveal_with_fuel(pow128, 11);
    lemma_encode_varint_len(x, 10);
}

proof fn lemma_encode_varint_len(v: nat, k: nat)
    requires
        v < pow128(k),
        1 <= k,
    ensures
        1 <= encode_varint(v).len() <= k,
    decreases v,
{
    if v >= 128 {
        assert(pow128(k) == 128 * pow128((k - 1) as nat));
        if k == 1 {
            assert(pow128(0) == 1);
        } else {
            lemma_encode_varint_len(v / 128, (k - 1) as nat);
        }
    }
}

/// Reading an encoded varint gives back its value.
pub proof fn lemma_varint_encode(pre: Seq<u8>, x: nat, rest: Seq<u8>)
    requires
        x <= u64::MAX,
    ensures
        varint(pre + encode_varint(x) + rest, pre.len() as int) == Some(
            (x, (pre.len() + encode_varint(x).len()) as int),
        ),
{
    lemma_encode_varint_bound(x);
    lemma_varint_from_encode(pre, x, rest, 0);
}

/// A length-delimited field is read back as one field that holds its payload.
pub proof fn lemma_message_fields(n: nat, payload: Seq<u8>)
    requires
        1 <= n <= MAX_FIELD_NUMBER,
        payload.len() <= u64::MAX,
    ensures
        fields_from(message_bytes(n, payload), 0) matches Some(fs) && fs.len() == 1 && fs[0].number
            == n && fs[0].wire_type == 2 && fs[0].value == payload.len() && payload_of(
            message_bytes(n, payload),
            fs[0],
        ) == payload && fs[0].start == 0 && fs[0].end == message_bytes(n, payload).len()
            && field_at(message_bytes(n, payload), 0) == Some(fs[0]),
{
    let key = encode_varint(n * 8 + 2);
    let len = encode_varint(payload.len());
    let m = message_bytes(n, payload);
    assert(m =~= Seq::<u8>::empty() + key + (len + payload));
    lemma_varint_encode(Seq::empty(), n * 8 + 2, len + payload);
    assert(m =~= key + len + payload);
    lemma_varint_encode(key, payload.len(), payload);
    assert((n * 8 + 2) / 8 == n);
    assert((n * 8 + 2) % 8 == 2);
    let f = field_at(m, 0)->0;
    assert(f.end == m.len());
    assert(fields_from(m, f.end) == Some(Seq::<FieldSpec>::empty()));
    assert(seq![f] + Seq::<FieldSpec>::empty() =~= seq![f]);
    assert(payload_of(m, f) =~= payload);
}

/// A boolean wrapper holding `v` is read back as `v == 1`.
pub proof fn lemma_wrapper_bool(v: nat)
    requires
        v <= 1,
    ensures
        spec_bool_wrapper(seq![8u8] + encode_varint(v)) == Some(v == 1),
{
    let b = seq![8u8] + encode_varint(v);
    assert(encode_varint(v) == seq![v as u8]);
    assert(b =~= seq![8u8, v as u8]);
    let f = field_at(b, 0)->0;
    assert(field_at(b, 0) == Some(FieldSpec { number: 1, wire_type: 0, value: v, start: 0, payload: 1, end: 2 }));
    assert(fields_from(b, 2) == Some(Seq::<FieldSpec>::empty()));
    assert(seq![f] + Seq::<FieldSpec>::empty() =~= seq![f]);
    let fs = seq![f];
    assert(fields_from(b, 0) == Some(fs));
    assert(fs.drop_last() =~= Seq::<FieldSpec>::empty());
    assert(fs.last() == f);
    assert(f.number == 1);
    assert(count_number(fs.drop_last(), 1) == 0);
    assert(count_number(fs, 1) == 1);
    assert(first_number(fs.drop_last(), 1) is None);
    assert(first_number(fs, 1) == Some(f));
}

pub proof fn lemma_reactions_field(v: nat)
    requires
        v <= 2,
    ensures
        fields_from(seq![56u8, v as u8], 0) == Some(
            seq![FieldSpec { number: 7, wire_type: 0, value: v, start: 0, payload: 1, end: 2 }],
        ),
{
    let b = seq![56u8, v as u8];
    assert(b =~= seq![56u8] + encode_varint(v) + Seq::<u8>::empty());
    lemma_varint_encode(seq![56u8], v, Seq::empty());
    assert(b =~= Seq::<u8>::empty() + encode_varint(56) + (encode_varint(v)));
    lemma_varint_encode(Seq::empty(), 56, encode_varint(v));
    assert(fields_from(b, 2) == Some(Seq::<FieldSpec>::empty()));
    let f = field_at(b, 0)->0;
    assert(seq![f] + Seq::<FieldSpec>::empty() =~= seq![f]);
}

/// The fields numbered `m` of `fs1` (in `s1`) and of `fs2` (in `s2`) agree: as many of
/// them, and a first one that means the same.
pub open spec fn corresponds(
    s1: Seq<u8>,
    fs1: Seq<FieldSpec>,
    s2: Seq<u8>,
    fs2: Seq<FieldSpec>,
    m: nat,
) -> bool {
    &&& count_number(fs1, m) == count_number(fs2, m)
    &&& (first_number(fs1, m) is Some) == (first_number(fs2, m) is Some)
    &&& first_number(fs1, m) is Some ==> same_field(
        s1,
        first_number(fs1, m)->0,
        s2,
        first_number(fs2, m)->0,
    )
}

proof fn lemma_same_corresponds(
    s1: Seq<u8>,
    fs1: Seq<FieldSpec>,
    s2: Seq<u8>,
    fs2: Seq<FieldSpec>,
    m: nat,
)
    requires
        same_fields(s1, fs1, s2, fs2),
    ensures
        corresponds(s1, fs1, s2, fs2, m),
    decreases fs1.len(),
{
    if fs1.len() > 0 {
        assert(same_fields(s1, fs1.drop_last(), s2, fs2.drop_last())) by {
            assert forall|k: int| 0 <= k < fs1.drop_last().len() implies same_field(
                s1,
                #[trigger] fs1.drop_last()[k],
                s2,
                fs2.drop_last()[k],
            ) by {
                assert(same_field(s1, fs1[k], s2, fs2[k]));
            }
        }
        lemma_same_corresponds(s1, fs1.drop_last(), s2, fs2.drop_last(), m);
        assert(same_field(s1, fs1[fs1.len() - 1], s2, fs2[fs2.len() - 1]));
    }
}

proof fn lemma_corresponds_flag(
    s1: Seq<u8>,
    fs1: Seq<FieldSpec>,
    s2: Seq<u8>,
    fs2: Seq<FieldSpec>,
    m: nat,
    d: bool,
)
    requires
        corresponds(s1, fs1, s2, fs2, m),
    ensures
        spec_flag(s1, fs1, m, d) == spec_flag(s2, fs2, m, d),
        spec_u32_field(fs1, m) == spec_u32_field(fs2, m),
{
}

proof fn lemma_filtered_corresponds(s: Seq<u8>, fs: Seq<FieldSpec>, n: nat, m: nat)
    requires
        m != n,
    ensures
        count_number(filtered(fs, n), m) == count_number(fs, m),
        first_number(filtered(fs, n), m) == first_number(fs, m),
    decreases fs.len(),
{
    if fs.len() > 0 {
        lemma_filtered_corresponds(s, fs.drop_last(), n, m);
        let p = filtered(fs.drop_last(), n);
        if fs.last().number != n {
            let q = p + seq![fs.last()];
            assert(q.drop_last() =~= p);
        } else {
            assert(p + Seq::<FieldSpec>::empty() =~= p);
        }
    }
}

proof fn lemma_filtered_none(fs: Seq<FieldSpec>, n: nat)
    ensures
        count_number(filtered(fs, n), n) == 0,
        first_number(filtered(fs, n), n) is None,
    decreases fs.len(),
{
    if fs.len() > 0 {
        lemma_filtered_none(fs.drop_last(), n);
        let p = filtered(fs.drop_last(), n);
        if fs.last().number != n {
            let q = p + seq![fs.last()];
            assert(q.drop_last() =~= p);
        } else {
            assert(p + Seq::<FieldSpec>::empty() =~= p);
        }
    }
}

/// The fields of a patched subtree: those of `src` not numbered `n`, unchanged, then the one
/// new field that `pf` holds.
proof fn lemma_patched(src: Seq<u8>, n: nat, pf: Seq<u8>)
    requires
        spec_fields(src) is Some,
        fields_from(pf, 0) is Some,
        fields_from(pf, 0)->0.len() == 1,
        fields_from(pf, 0)->0[0].number == n,
    ensures
        ({
            let fs = spec_fields(src)->0;
            let w = kept_raw(src, fs, n) + pf;
            &&& spec_fields(w) is Some
            &&& forall|m: nat|
                m != n ==> #[trigger] corresponds(w, spec_fields(w)->0, src, fs, m)
            &&& count_number(spec_fields(w)->0, n) == 1
            &&& first_number(spec_fields(w)->0, n) is Some
            &&& same_field(
                w,
                first_number(spec_fields(w)->0, n)->0,
                pf,
                fields_from(pf, 0)->0[0],
            )
            &&& same_fields(
                w,
                spec_fields(w)->0.take(filtered(fs, n).len() as int),
                src,
                filtered(fs, n),
            )
        }),
{
    let fs = spec_fields(src)->0;
    let gs = filtered(fs, n);
    let pfs = fields_from(pf, 0)->0;
    lemma_parsed_in(src, 0);
    lemma_parsed_filtered(src, fs, n);
    lemma_kept_raw(src, fs, n);
    lemma_concat(src, gs, pf);
    let w = kept_raw(src, fs, n) + pf;
    let ws = fields_from(w, 0)->0;
    let head = ws.take(gs.len() as int);
    let tail = ws.skip(gs.len() as int);
    assert(ws =~= head.push(tail[0]));
    assert(head.push(tail[0]).drop_last() =~= head);
    assert(same_field(w, tail[0], pf, pfs[0]));
    lemma_filtered_none(fs, n);
    lemma_same_corresponds(w, head, src, gs, n);
    assert forall|m: nat| m != n implies #[trigger] corresponds(w, ws, src, fs, m) by {
        lemma_same_corresponds(w, head, src, gs, m);
        lemma_filtered_corresponds(src, fs, n, m);
    }
}

/// The field number that a change writes.
pub open spec fn target_number(c: Change) -> nat {
    match patch_target(c) {
        Some((n, _)) => n,
        None => 0,
    }
}

/// A change to one overview preference, other than streaming, and the field that holds it.
pub open spec fn is_subtree_change(c: Change) -> bool {
    patch_target(c) is Some && !(c is Streaming)
}

/// The flags of a patched notification subtree: the changed one holds the new value, the
/// others what the current subtree holds.
proof fn lemma_patched_flags(cur: SettingsSpec, c: Change)
    requires
        is_subtree_change(c),
        spec_fields(cur.wire) is Some,
    ensures
        patch_subtree(cur, c) is Some,
        spec_fields(patch_subtree(cur, c)->0) is Some,
        ({
            let n = target_number(c);
            let v = target_value(c);
            let w = patch_subtree(cur, c)->0;
            let ws = spec_fields(w)->0;
            let src = cur.wire;
            let fs = spec_fields(src)->0;
            &&& n != 12 ==> spec_flag(w, ws, 12, true) == spec_flag(src, fs, 12, true)
            &&& n != 14 ==> spec_flag(w, ws, 14, true) == spec_flag(src, fs, 14, true)
            &&& n != 16 ==> spec_flag(w, ws, 16, true) == spec_flag(src, fs, 16, true)
            &&& n != 22 ==> spec_flag(w, ws, 22, true) == spec_flag(src, fs, 22, true)
            &&& n != 7 ==> spec_u32_field(ws, 7) == spec_u32_field(fs, 7)
            &&& n == 7 ==> spec_u32_field(ws, 7) == Some(v)
            &&& n != 7 ==> spec_flag(w, ws, n, true) == Some(v == 1)
        }),
{
    let (n, v) = patch_target(c)->0;
    let src = cur.wire;
    let fs = spec_fields(src)->0;
    let pf = patch_field(c, n, v);
    let pfs = fields_from(pf, 0)->0;
    if n == 7 {
        lemma_reactions_field(v);
    } else {
        lemma_message_fields(n, seq![8u8] + encode_varint(v));
        lemma_wrapper_bool(v);
    }
    lemma_patched(src, n, pf);
    let w = kept_raw(src, fs, n) + pf;
    let ws = spec_fields(w)->0;
    assert(patch_subtree(cur, c) == Some(w));
    let f = first_number(ws, n)->0;
    assert(same_field(w, f, pf, pfs[0]));
    if n == 7 {
        assert(spec_u32_field(ws, 7) == Some(v));
    } else {
        assert(payload_of(w, f) == seq![8u8] + encode_varint(v));
        assert(spec_flag(w, ws, n, true) == Some(v == 1));
    }
    lemma_kept_flags(w, ws, src, fs, n);
}

/// The value that a change writes.
pub open spec fn target_value(c: Change) -> nat {
    match patch_target(c) {
        Some((_, v)) => v,
        None => 0,
    }
}

/// A patch changes exactly the preference it is for: the notification subtree that it
/// writes reads back as the current preferences with the change applied.
pub proof fn law_patch_applies_change(cur: SettingsSpec, c: Change, o: Overview)
    requires
        is_subtree_change(c),
        spec_fields(cur.wire) is Some,
        spec_overview(cur.wire, o.streaming) == Some(o),
    ensures
        patch_subtree(cur, c) is Some,
        spec_overview(patch_subtree(cur, c)->0, o.streaming) == Some(c.overview_after(o)),
{
    lemma_patched_flags(cur, c);
}

proof fn lemma_kept_flags(w: Seq<u8>, ws: Seq<FieldSpec>, src: Seq<u8>, fs: Seq<FieldSpec>, n: nat)
    requires
        forall|m: nat| m != n ==> #[trigger] corresponds(w, ws, src, fs, m),
    ensures
        n != 12 ==> spec_flag(w, ws, 12, true) == spec_flag(src, fs, 12, true),
        n != 14 ==> spec_flag(w, ws, 14, true) == spec_flag(src, fs, 14, true),
        n != 16 ==> spec_flag(w, ws, 16, true) == spec_flag(src, fs, 16, true),
        n != 22 ==> spec_flag(w, ws, 22, true) == spec_flag(src, fs, 22, true),
        n != 7 ==> spec_u32_field(ws, 7) == spec_u32_field(fs, 7),
{
    if n != 12 {
        lemma_corresponds_flag(w, ws, src, fs, 12, true);
    }
    if n != 14 {
        lemma_corresponds_flag(w, ws, src, fs, 14, true);
    }
    if n != 16 {
        lemma_corresponds_flag(w, ws, src, fs, 16, true);
    }
    if n != 22 {
        lemma_corresponds_flag(w, ws, src, fs, 22, true);
    }
    if n != 7 {
        lemma_corresponds_flag(w, ws, src, fs, 7, true);
    }
}

/// A streaming patch writes the voice subtree with the new streaming preference, whatever
/// else that subtree holds.
pub proof fn law_streaming_patch(cur: SettingsSpec, b: bool)
    requires
        spec_fields(cur.voice) is Some,
    ensures
        patch_subtree(cur, Change::Streaming(b)) is Some,
        spec_streaming(patch_subtree(cur, Change::Streaming(b))->0) == Some(b),
{
    let c = Change::Streaming(b);
    let v = bool_nat(b);
    let src = cur.voice;
    let fs = spec_fields(src)->0;
    let pf = patch_field(c, 7, v);
    lemma_message_fields(7, seq![8u8] + encode_varint(v));
    lemma_wrapper_bool(v);
    lemma_patched(src, 7, pf);
    let w = kept_raw(src, fs, 7) + pf;
    let ws = spec_fields(w)->0;
    let f = first_number(ws, 7)->0;
    assert(payload_of(w, f) == seq![8u8] + encode_varint(v));
}

/// A patch keeps every field of the subtree that it does not change, in order and byte for
/// byte, and adds exactly one field: the changed one.
pub proof fn law_patch_keeps_other_fields(cur: SettingsSpec, c: Change)
    requires
        patch_target(c) is Some,
        spec_fields(
            if c is Streaming {
                cur.voice
            } else {
                cur.wire
            },
        ) is Some,
    ensures
        ({
            let n = target_number(c);
            let src = if c is Streaming {
                cur.voice
            } else {
                cur.wire
            };
            let kept = filtered(spec_fields(src)->0, n);
            &&& patch_subtree(cur, c) is Some
            &&& spec_fields(patch_subtree(cur, c)->0) is Some
            &&& spec_fields(patch_subtree(cur, c)->0)->0.len() == kept.len() + 1
            &&& same_fields(
                patch_subtree(cur, c)->0,
                spec_fields(patch_subtree(cur, c)->0)->0.take(kept.len() as int),
                src,
                kept,
            )
            &&& spec_fields(patch_subtree(cur, c)->0)->0.last().number == n
        }),
{
    let (n, v) = patch_target(c)->0;
    let src = if c is Streaming {
        cur.voice
    } else {
        cur.wire
    };
    let fs = spec_fields(src)->0;
    let pf = patch_field(c, n, v);
    if n == 7 && !(c is Streaming) {
        lemma_reactions_field(v);
    } else {
        lemma_message_fields(n, seq![8u8] + encode_varint(v));
    }
    lemma_patched(src, n, pf);
    let gs = filtered(fs, n);
    lemma_parsed_in(src, 0);
    lemma_parsed_filtered(src, fs, n);
    lemma_kept_raw(src, fs, n);
    lemma_concat(src, gs, pf);
    let w = kept_raw(src, fs, n) + pf;
    let ws = spec_fields(w)->0;
    let tail = ws.skip(gs.len() as int);
    assert(tail[0] == ws.last());
}

/// The data version `k` as a settings proto sends it: field 1, a message whose field 3 holds
/// `k`.
pub open spec fn version_bytes(k: nat) -> Seq<u8> {
    message_bytes(1, seq![24u8] + encode_varint(k))
}

proof fn lemma_version_fields(k: nat)
    requires
        k <= u32::MAX,
    ensures
        spec_fields(seq![24u8] + encode_varint(k)) matches Some(fs) && spec_u32_field(fs, 3)
            == Some(k),
{
    let b = seq![24u8] + encode_varint(k);
    lemma_encode_varint_bound(k);
    assert(b =~= seq![24u8] + encode_varint(k) + Seq::<u8>::empty());
    lemma_varint_encode(seq![24u8], k, Seq::empty());
    assert(encode_varint(24) == seq![24u8]);
    assert(b =~= Seq::<u8>::empty() + encode_varint(24) + encode_varint(k));
    lemma_varint_encode(Seq::empty(), 24, encode_varint(k));
    assert(24nat / 8 == 3 && 24nat % 8 == 0);
    let f = FieldSpec { number: 3, wire_type: 0, value: k, start: 0, payload: 1, end: b.len() as int };
    assert(field_at(b, 0) == Some(f));
    assert(fields_from(b, f.end) == Some(Seq::<FieldSpec>::empty()));
    assert(seq![f] + Seq::<FieldSpec>::empty() =~= seq![f]);
    let fs = seq![f];
    assert(fields_from(b, 0) == Some(fs));
    assert(fs.drop_last() =~= Seq::<FieldSpec>::empty());
    assert(count_number(fs.drop_last(), 3) == 0);
    assert(count_number(fs, 3) == 1);
    assert(first_number(fs.drop_last(), 3) is None);
    assert(first_number(fs, 3) == Some(f));
}

/// One field, then the fields of `p`: read back as that field, then those of `p` moved
/// after it.
proof fn lemma_field_then(v: Seq<u8>, f1: FieldSpec, p: Seq<u8>, f7: FieldSpec)
    requires
        spec_fields(v) == Some(seq![f1]),
        field_at(v, 0) == Some(f1),
        f1.start == 0,
        f1.end == v.len(),
        spec_fields(p) == Some(seq![f7]),
    ensures
        spec_fields(v + p) == Some(seq![f1, shift(f7, v.len() as int)]),
        payload_of(v + p, f1) == payload_of(v, f1),
        payload_of(v + p, shift(f7, v.len() as int)) == payload_of(p, f7),
{
    lemma_field_bounds(v, 0);
    lemma_fields_in_bounds(p, 0);
    assert(seq![f7][0] == f7);
    assert(raw_of(v, f1) =~= v);
    lemma_single_raw(v, f1, p);
    assert(shift(f1, 0) == f1);
    assert(shift_seq(seq![f7], v.len() as int) =~= seq![shift(f7, v.len() as int)]);
    assert(seq![f1] + seq![shift(f7, v.len() as int)] =~= seq![f1, shift(f7, v.len() as int)]);
    assert(payload_of(v + p, f1) =~= payload_of(v, f1));
    assert(payload_of(v + p, shift(f7, v.len() as int)) =~= payload_of(p, f7));
}

/// The counts and first fields of a version field followed by a subtree field.
proof fn lemma_two_numbers(f1: FieldSpec, g7: FieldSpec)
    requires
        f1.number == 1,
        g7.number == 7,
    ensures
        unique_number(seq![f1, g7], 1) == Some(Some(f1)),
        unique_number(seq![f1, g7], 5) == Some(None::<FieldSpec>),
        unique_number(seq![f1, g7], 7) == Some(Some(g7)),
{
    let ws = seq![f1, g7];
    assert(ws.drop_last() =~= seq![f1]);
    assert(seq![f1].drop_last() =~= Seq::<FieldSpec>::empty());
    assert(seq![f1].last() == f1);
    assert(count_number(Seq::<FieldSpec>::empty(), 1) == 0);
    assert(count_number(Seq::<FieldSpec>::empty(), 5) == 0);
    assert(count_number(Seq::<FieldSpec>::empty(), 7) == 0);
    assert(first_number(Seq::<FieldSpec>::empty(), 1) is None);
    assert(first_number(Seq::<FieldSpec>::empty(), 5) is None);
    assert(first_number(Seq::<FieldSpec>::empty(), 7) is None);
    assert(count_number(seq![f1], 1) == 1);
    assert(count_number(seq![f1], 5) == 0);
    assert(count_number(seq![f1], 7) == 0);
    assert(first_number(seq![f1], 1) == Some(f1));
    assert(first_number(seq![f1], 5) is None);
    assert(first_number(seq![f1], 7) is None);
}

/// A written patch reads back end to end: settings that hold the data version and the
/// patch alone decode to that version, the current overview with the change applied
/// (streaming at its default, since no voice subtree is sent), and the patched subtree,
/// which keeps every other field of the current one (`law_patch_keeps_other_fields`).
pub proof fn law_patch_round_trip(w0: Seq<u8>, cur: SettingsSpec, c: Change, k: nat)
    requires
        spec_decode_wire(w0) == Some(cur),
        is_subtree_change(c),
        patch_payload(cur, c) is Some,
        k <= u32::MAX,
    ensures
        spec_decode_wire(version_bytes(k) + patch_payload(cur, c)->0) == Some(
            SettingsSpec {
                version: k,
                overview: Overview { streaming: true, ..c.overview_after(cur.overview) },
                wire: patch_subtree(cur, c)->0,
                voice: Seq::empty(),
            },
        ),
{
    assert(spec_overview(cur.wire, cur.overview.streaming) == Some(cur.overview));
    law_patch_applies_change(cur, c, cur.overview);
    let w = patch_subtree(cur, c)->0;
    let p = message_bytes(7, w);
    assert(patch_payload(cur, c)->0 == p);
    assert(w.len() <= MAX_SUBTREE);
    let vp = seq![24u8] + encode_varint(k);
    lemma_encode_varint_bound(k);
    let v = version_bytes(k);
    lemma_message_fields(1, vp);
    lemma_message_fields(7, w);
    lemma_version_fields(k);
    let f1 = spec_fields(v)->0[0];
    let f7 = spec_fields(p)->0[0];
    assert(spec_fields(v)->0 =~= seq![f1]);
    assert(spec_fields(p)->0 =~= seq![f7]);
    lemma_field_then(v, f1, p, f7);
    let g7 = shift(f7, v.len() as int);
    lemma_two_numbers(f1, g7);
    let t = v + p;
    let ws = seq![f1, g7];
    assert(spec_fields(t) == Some(ws));
    assert(payload_of(t, f1) == vp);
    assert(spec_version(t, ws) == Some(k));
    assert(spec_part(t, ws, 5) == Some(Seq::<u8>::empty()));
    assert(spec_part(t, ws, 7) == Some(w));
    assert(spec_fields(Seq::<u8>::empty()) == Some(Seq::<FieldSpec>::empty()));
    assert(count_number(Seq::<FieldSpec>::empty(), 7) == 0);
    assert(spec_streaming(Seq::<u8>::empty()) == Some(true));
}

/// The round trip through Discord's answer: a response that is not out of date, whose
/// base64 settings decode to the data version and the patch, reads back as
/// `law_patch_round_trip` says. `encode_patch` gives the patch as such base64 text.
pub proof fn law_saved_patch_reads_back(
    w0: Seq<u8>,
    cur: SettingsSpec,
    c: Change,
    k: nat,
    len: nat,
    r: SettingsResponse,
)
    requires
        spec_decode_wire(w0) == Some(cur),
        is_subtree_change(c),
        patch_payload(cur, c) is Some,
        k <= u32::MAX,
        len <= MAX_SETTINGS_RESPONSE,
        !r.out_of_date,
        base64_standard_decode(r.settings@) == Some(version_bytes(k) + patch_payload(cur, c)->0),
    ensures
        spec_decode_response(len, Some(r)) == Some(
            SettingsSpec {
                version: k,
                overview: Overview { streaming: true, ..c.overview_after(cur.overview) },
                wire: patch_subtree(cur, c)->0,
                voice: Seq::empty(),
            },
        ),
{
    law_patch_round_trip(w0, cur, c, k);
}

} // verus!
