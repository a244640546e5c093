//! The unofficial settings-proto/1 notification subtree and the email settings; every wire
//! field that a change does not touch is retained.
use crate::model::{Change, Email, Id, Overview, SocialKind, SocialNotification};
use crate::wire::{
    encode_varint, field_at, fields, fields_from, integer_wrapper_bytes, message_bytes, payload_of,
    pow128, raw_of, spec_fields, varint, varint_from, DecodeError, Field, FieldSpec,
    MAX_FIELD_NUMBER,
};
use base64::Engine;
use vstd::string::StrSliceExecFns;
use vstd::prelude::*;
use vstd::slice::slice_subrange;

verus! {

/// The largest settings-proto response that is read. A bound chosen by this library: the
/// settings-proto limit shared with other settings sections is not part of this crate.
pub const MAX_SETTINGS_RESPONSE: usize = 524288;

/// The largest notification subtree (or voice subtree) that is kept or written.
pub const MAX_SUBTREE: usize = 16384;

/// The largest email-settings response that is read.
pub const MAX_EMAIL_RESPONSE: usize = 16384;

/// The largest notification-center item that is read.
pub const MAX_SOCIAL_ITEM: usize = 65536;

/// The largest notification body, in UTF-8 bytes.
pub const MAX_SOCIAL_BODY: usize = 1024;

/// The character of the standard base64 alphabet for the 6-bit value `n`.
pub open spec fn base64_char(n: int) -> char {
    if n < 26 {
        (65 + n) as char
    } else if n < 52 {
        (71 + n) as char
    } else if n < 62 {
        (n - 4) as char
    } else if n == 62 {
        '+'
    } else {
        '/'
    }
}

/// Base64 with the standard alphabet and `=` padding (RFC 4648, section 4): each three
/// bytes become four characters, and a last one or two bytes two or three, padded to four.
pub open spec fn base64_standard_encode(b: Seq<u8>) -> Seq<char>
    decreases b.len(),
{
    if b.len() == 0 {
        Seq::empty()
    } else {
        let x = b[0] as int;
        let y = if b.len() > 1 {
            b[1] as int
        } else {
            0
        };
        let z = if b.len() > 2 {
            b[2] as int
        } else {
            0
        };
        let c0 = base64_char(x / 4);
        let c1 = base64_char((x % 4) * 16 + y / 16);
        let c2 = base64_char((y % 16) * 4 + z / 64);
        let c3 = base64_char(z % 64);
        if b.len() == 1 {
            seq![c0, c1, '=', '=']
        } else if b.len() == 2 {
            seq![c0, c1, c2, '=']
        } else {
            seq![c0, c1, c2, c3] + base64_standard_encode(b.skip(3))
        }
    }
}

/// Standard base64 decoding with canonical padding: the bytes whose encoding `text` is, and
/// `None` where `text` is the encoding of no bytes (a foreign character, missing or misplaced
/// padding, or unused bits that are not zero). No two byte strings share an encoding
/// (`lemma_base64_injective`).
pub open spec fn base64_standard_decode(text: Seq<char>) -> Option<Seq<u8>> {
    if exists|b: Seq<u8>| base64_standard_encode(b) == text {
        Some(choose|b: Seq<u8>| base64_standard_encode(b) == text)
    } else {
        None
    }
}

proof fn lemma_base64_char(m: int, n: int)
    requires
        0 <= m < 64,
        0 <= n < 64,
    ensures
        base64_char(m) != '=',
        base64_char(m) == base64_char(n) ==> m == n,
{
}

/// Standard base64 encoding is one to one.
pub proof fn lemma_base64_injective(a: Seq<u8>, b: Seq<u8>)
    requires
        base64_standard_encode(a) == base64_standard_encode(b),
    ensures
        a == b,
    decreases a.len(),
{
    let ea = base64_standard_encode(a);
    let eb = base64_standard_encode(b);
    assert(a.len() > 0 ==> ea.len() >= 4);
    assert(b.len() > 0 ==> eb.len() >= 4);
    if a.len() == 0 || b.len() == 0 {
        assert(a.len() == 0 && b.len() == 0);
        assert(a =~= b);
    } else {
        let xa = a[0] as int;
        let xb = b[0] as int;
        let ya = if a.len() > 1 { a[1] as int } else { 0 };
        let yb = if b.len() > 1 { b[1] as int } else { 0 };
        let za = if a.len() > 2 { a[2] as int } else { 0 };
        let zb = if b.len() > 2 { b[2] as int } else { 0 };
        lemma_base64_char(xa / 4, xb / 4);
        lemma_base64_char((xa % 4) * 16 + ya / 16, (xb % 4) * 16 + yb / 16);
        lemma_base64_char((ya % 16) * 4 + za / 64, (yb % 16) * 4 + zb / 64);
        lemma_base64_char(za % 64, zb % 64);
        assert(ea[0] == eb[0] && ea[1] == eb[1] && ea[2] == eb[2] && ea[3] == eb[3]);
        assert((a.len() == 1) == (b.len() == 1));
        assert((a.len() == 2) == (b.len() == 2));
        assert(xa == xb);
        if a.len() == 1 {
            assert(a =~= b);
        } else {
            assert(ya == yb);
            if a.len() == 2 {
                assert(a =~= b);
            } else {
                assert(za == zb);
                assert(ea.skip(4) =~= base64_standard_encode(a.skip(3)));
                assert(eb.skip(4) =~= base64_standard_encode(b.skip(3)));
                lemma_base64_injective(a.skip(3), b.skip(3));
                assert(a =~= seq![a[0], a[1], a[2]] + a.skip(3));
                assert(b =~= seq![b[0], b[1], b[2]] + b.skip(3));
            }
        }
    }
}

/// Decoding gives back what was encoded.
pub proof fn lemma_base64_round_trip(b: Seq<u8>)
    ensures
        base64_standard_decode(base64_standard_encode(b)) == Some(b),
{
    let t = base64_standard_encode(b);
    assert(exists|c: Seq<u8>| base64_standard_encode(c) == t);
    let c = choose|c: Seq<u8>| base64_standard_encode(c) == t;
    lemma_base64_injective(c, b);
}

/// `base64::engine::general_purpose::STANDARD.decode`.
/// Claims that the engine accepts exactly the canonically padded standard encodings, and
/// gives back the bytes encoded; it returns an error for any other text.
#[verifier::external_body]
fn decode_base64(text: &str) -> (r: Option<Vec<u8>>)
    ensures
        match base64_standard_decode(text@) {
            Some(b) => r matches Some(v) && v@ == b,
            None => r is None,
        },
{
    base64::engine::general_purpose::STANDARD.decode(text).ok()
}

/// `base64::engine::general_purpose::STANDARD.encode`.
/// Claims that the result is the standard padded base64 of the bytes. The engine panics
/// only where the encoded length overflows `usize`, which the bound on the input rules out.
#[verifier::external_body]
fn encode_base64(bytes: &[u8]) -> (r: String)
    requires
        bytes@.len() <= 0x1000_0000,
    ensures
        r@ == base64_standard_encode(bytes@),
{
    base64::engine::general_purpose::STANDARD.encode(bytes)
}

/// The number of fields numbered `n`.
pub open spec fn count_number(fs: Seq<FieldSpec>, n: nat) -> nat
    decreases fs.len(),
{
    if fs.len() == 0 {
        0
    } else {
        count_number(fs.drop_last(), n) + if fs.last().number == n {
            1nat
        } else {
            0nat
        }
    }
}

/// The first field numbered `n`.
pub open spec fn first_number(fs: Seq<FieldSpec>, n: nat) -> Option<FieldSpec>
    decreases fs.len(),
{
    if fs.len() == 0 {
        None
    } else {
        match first_number(fs.drop_last(), n) {
            Some(f) => Some(f),
            None => if fs.last().number == n {
                Some(fs.last())
            } else {
                None
            },
        }
    }
}

/// The field numbered `n`, which may occur at most once: `Some(None)` where it is absent,
/// `None` where it is repeated.
pub open spec fn unique_number(fs: Seq<FieldSpec>, n: nat) -> Option<Option<FieldSpec>> {
    if count_number(fs, n) > 1 {
        None
    } else {
        Some(first_number(fs, n))
    }
}

/// A boolean wrapper message: field 1 holds 0 or 1, and an absent field 1 means false.
pub open spec fn spec_bool_wrapper(b: Seq<u8>) -> Option<bool> {
    match spec_fields(b) {
        None => None,
        Some(fs) => match unique_number(fs, 1) {
            None => None,
            Some(None) => Some(false),
            Some(Some(f)) => if f.wire_type == 0 && f.value <= 1 {
                Some(f.value == 1)
            } else {
                None
            },
        },
    }
}

/// A flag stored as a boolean wrapper in field `n` of `s`, or `default` where it is absent.
pub open spec fn spec_flag(s: Seq<u8>, fs: Seq<FieldSpec>, n: nat, default: bool) -> Option<bool> {
    match unique_number(fs, n) {
        None => None,
        Some(None) => Some(default),
        Some(Some(f)) => if f.wire_type == 2 {
            spec_bool_wrapper(payload_of(s, f))
        } else {
            None
        },
    }
}

/// A 32-bit integer stored as a varint in field `n`, or 0 where it is absent.
pub open spec fn spec_u32_field(fs: Seq<FieldSpec>, n: nat) -> Option<nat> {
    match unique_number(fs, n) {
        None => None,
        Some(None) => Some(0),
        Some(Some(f)) => if f.wire_type == 0 && f.value <= u32::MAX {
            Some(f.value)
        } else {
            None
        },
    }
}

/// The data version: field 3 of the message in field 1, which must be present.
pub open spec fn spec_version(wire: Seq<u8>, fs: Seq<FieldSpec>) -> Option<nat> {
    match unique_number(fs, 1) {
        Some(Some(f)) => if f.wire_type == 2 {
            match spec_fields(payload_of(wire, f)) {
                Some(inner) => spec_u32_field(inner, 3),
                None => None,
            }
        } else {
            None
        },
        _ => None,
    }
}

/// A bounded sub-message in field `n`, or no bytes where it is absent.
pub open spec fn spec_part(wire: Seq<u8>, fs: Seq<FieldSpec>, n: nat) -> Option<Seq<u8>> {
    match unique_number(fs, n) {
        None => None,
        Some(None) => Some(Seq::empty()),
        Some(Some(f)) => if f.wire_type == 2 && f.value <= MAX_SUBTREE {
            Some(payload_of(wire, f))
        } else {
            None
        },
    }
}

/// Whether streaming notifications are on: field 7 of the voice subtree, on by default.
pub open spec fn spec_streaming(voice: Seq<u8>) -> Option<bool> {
    match spec_fields(voice) {
        Some(fs) => spec_flag(voice, fs, 7, true),
        None => None,
    }
}

/// The overview preferences that the notification subtree holds.
pub open spec fn spec_overview(subtree: Seq<u8>, streaming: bool) -> Option<Overview> {
    match spec_fields(subtree) {
        None => None,
        Some(fs) => {
            let friends_online = spec_flag(subtree, fs, 12, true);
            let friend_anniversary = spec_flag(subtree, fs, 14, true);
            let profile_updates = spec_flag(subtree, fs, 16, true);
            let upcoming_event = spec_flag(subtree, fs, 22, true);
            let reactions = spec_u32_field(fs, 7);
            if friends_online is Some && friend_anniversary is Some && profile_updates is Some
                && upcoming_event is Some && reactions is Some {
                Some(
                    Overview {
                        streaming,
                        friend_anniversary: friend_anniversary->0,
                        friends_online: friends_online->0,
                        upcoming_event: upcoming_event->0,
                        profile_updates: profile_updates->0,
                        reactions: reactions->0 as u32,
                    },
                )
            } else {
                None
            }
        },
    }
}

/// What a settings-proto response holds: its version, the overview preferences, and the
/// raw notification and voice subtrees that later patches start from.
pub struct SettingsSpec {
    pub version: nat,
    pub overview: Overview,
    pub wire: Seq<u8>,
    pub voice: Seq<u8>,
}

/// Decodes the settings proto `wire`.
pub open spec fn spec_decode_wire(wire: Seq<u8>) -> Option<SettingsSpec> {
    match spec_fields(wire) {
        None => None,
        Some(fs) => {
            let version = spec_version(wire, fs);
            let voice = spec_part(wire, fs, 5);
            let subtree = spec_part(wire, fs, 7);
            if version is Some && voice is Some && subtree is Some {
                match spec_streaming(voice->0) {
                    Some(streaming) => match spec_overview(subtree->0, streaming) {
                        Some(overview) => Some(
                            SettingsSpec {
                                version: version->0,
                                overview,
                                wire: subtree->0,
                                voice: voice->0,
                            },
                        ),
                        None => None,
                    },
                    None => None,
                }
            } else {
                None
            }
        },
    }
}

/// The notification preferences of a settings-proto response, with the raw subtrees that
/// patches are built from.
pub struct Settings {
    pub version: u64,
    pub overview: Overview,
    wire: Vec<u8>,
    voice_wire: Vec<u8>,
}

impl View for Settings {
    type V = SettingsSpec;

    closed spec fn view(&self) -> SettingsSpec {
        SettingsSpec {
            version: self.version as nat,
            overview: self.overview,
            wire: self.wire@,
            voice: self.voice_wire@,
        }
    }
}

impl Settings {
    /// The overview preferences that the response holds.
    pub fn overview(&self) -> (r: Overview)
        ensures
            r == self@.overview,
    {
        self.overview
    }

    /// The raw notification subtree, which patches keep.
    pub fn subtree(&self) -> (r: &[u8])
        ensures
            r@ == self@.wire,
    {
        self.wire.as_slice()
    }

    /// The raw voice subtree, which streaming patches keep.
    pub fn voice_subtree(&self) -> (r: &[u8])
        ensures
            r@ == self@.voice,
    {
        self.voice_wire.as_slice()
    }

    /// The data version that a patch must name.
    pub fn version(&self) -> (r: u64)
        ensures
            r == self@.version,
    {
        self.version
    }
}

/// The JSON envelope of a settings-proto response.
pub struct SettingsResponse {
    pub settings: String,
    pub out_of_date: bool,
}

/// Decodes a settings-proto response of `len` bytes, which JSON gave as `response`
/// (`None` where it was not a valid envelope).
pub open spec fn spec_decode_response(len: nat, response: Option<SettingsResponse>) -> Option<
    SettingsSpec,
> {
    if len > MAX_SETTINGS_RESPONSE {
        None
    } else {
        match response {
            None => None,
            Some(r) => if r.out_of_date {
                None
            } else {
                match base64_standard_decode(r.settings@) {
                    Some(wire) => spec_decode_wire(wire),
                    None => None,
                }
            },
        }
    }
}

pub open spec fn opt_view(o: Option<Field>) -> Option<FieldSpec> {
    match o {
        Some(f) => Some(f@),
        None => None,
    }
}

pub open spec fn views(fs: Seq<Field>) -> Seq<FieldSpec> {
    fs.map_values(|f: Field| f@)
}

proof fn lemma_take_last(fs: Seq<FieldSpec>, i: int)
    requires
        0 <= i < fs.len(),
    ensures
        fs.take(i + 1).drop_last() == fs.take(i),
        fs.take(i + 1).last() == fs[i],
{
    assert(fs.take(i + 1).drop_last() =~= fs.take(i));
}

/// The field numbered `n`, which may occur at most once.
fn unique_field(fs: &Vec<Field>, n: u64) -> (r: Result<Option<Field>, DecodeError>)
    ensures
        match unique_number(views(fs@), n as nat) {
            None => r is Err,
            Some(o) => r matches Ok(x) && opt_view(x) == o,
        },
{
    let ghost vs = views(fs@);
    let mut found: Option<Field> = None;
    let mut i: usize = 0;
    while i < fs.len()
        invariant
            i <= fs.len(),
            vs == views(fs@),
            count_number(vs.take(i as int), n as nat) <= 1,
            opt_view(found) == first_number(vs.take(i as int), n as nat),
            (found is Some) == (count_number(vs.take(i as int), n as nat) == 1),
        decreases fs.len() - i,
    {
        proof {
            lemma_take_last(vs, i as int);
        }
        if fs[i].number == n {
            if found.is_some() {
                proof {
                    lemma_count_prefix(vs, i + 1, n as nat);
                }
                return Err(DecodeError);
            }
            found = Some(fs[i]);
        }
        i = i + 1;
    }
    proof {
        assert(vs.take(fs.len() as int) =~= vs);
    }
    Ok(found)
}

proof fn lemma_count_prefix(fs: Seq<FieldSpec>, i: int, n: nat)
    requires
        0 <= i <= fs.len(),
    ensures
        count_number(fs.take(i), n) <= count_number(fs, n),
    decreases fs.len(),
{
    if i < fs.len() {
        assert(fs.drop_last().take(i) =~= fs.take(i));
        lemma_count_prefix(fs.drop_last(), i, n);
    } else {
        assert(fs.take(i) =~= fs);
    }
}

/// The payload of a length-delimited field read from `s`.
fn payload<'a>(s: &'a [u8], f: Field) -> (r: &'a [u8])
    requires
        f@.payload <= f@.end <= s@.len(),
    ensures
        r@ == payload_of(s@, f@),
{
    slice_subrange(s, f.payload, f.end)
}

/// Every field of a message lies inside it, in order.
pub open spec fn fields_within(s: Seq<u8>, fs: Seq<FieldSpec>) -> bool {
    forall|k: int|
        0 <= k < fs.len() ==> 0 <= #[trigger] fs[k].start < fs[k].payload <= fs[k].end <= s.len()
}

proof fn lemma_fields_within(s: Seq<u8>, i: int)
    requires
        fields_from(s, i) is Some,
    ensures
        fields_within(s, fields_from(s, i)->0),
    decreases s.len() - i,
{
    if 0 <= i < s.len() {
        let f = field_at(s, i)->0;
        lemma_fields_within(s, f.end);
        lemma_field_at_bounds(s, i);
        let rest = fields_from(s, f.end)->0;
        assert forall|k: int| 0 <= k < (seq![f] + rest).len() implies 0 <= #[trigger] (seq![f]
            + rest)[k].start < (seq![f] + rest)[k].payload <= (seq![f] + rest)[k].end
            <= s.len() by {
            if k > 0 {
                assert((seq![f] + rest)[k] == rest[k - 1]);
            }
        }
    }
}

proof fn lemma_varint_bounds(s: Seq<u8>, i: int)
    ensures
        varint(s, i) matches Some((v, e)) ==> 0 <= i < e <= s.len(),
{
    lemma_varint_from_bounds(s, i, 0);
}

proof fn lemma_varint_from_bounds(s: Seq<u8>, i: int, k: nat)
    ensures
        varint_from(s, i, k) matches Some((v, e)) ==> 0 <= i < e <= s.len(),
    decreases 10 - k,
{
    if k < 10 && 0 <= i < s.len() && s[i] >= 128 {
        lemma_varint_from_bounds(s, i + 1, k + 1);
    }
}

pub proof fn lemma_field_at_bounds(s: Seq<u8>, i: int)
    ensures
        field_at(s, i) matches Some(f) ==> 0 <= i == f.start < f.payload <= f.end <= s.len()
            && f.number >= 1 && f.number <= MAX_FIELD_NUMBER,
{
    lemma_varint_bounds(s, i);
    if let Some((key, p)) = varint(s, i) {
        lemma_varint_bounds(s, p);
    }
}

/// Reads a boolean wrapper message.
fn bool_wrapper(bytes: &[u8]) -> (r: Result<bool, DecodeError>)
    ensures
        match spec_bool_wrapper(bytes@) {
            Some(b) => r == Ok::<bool, DecodeError>(b),
            None => r is Err,
        },
{
    let fs = fields(bytes)?;
    match unique_field(&fs, 1)? {
        None => Ok(false),
        Some(f) => if f.wire_type == 0 && f.value <= 1 {
            Ok(f.value == 1)
        } else {
            Err(DecodeError)
        },
    }
}

/// Reads a flag stored as a boolean wrapper in field `n`.
fn flag(s: &[u8], fs: &Vec<Field>, n: u64, default: bool) -> (r: Result<bool, DecodeError>)
    requires
        fields_within(s@, views(fs@)),
    ensures
        match spec_flag(s@, views(fs@), n as nat, default) {
            Some(b) => r == Ok::<bool, DecodeError>(b),
            None => r is Err,
        },
{
    match unique_field(fs, n)? {
        None => Ok(default),
        Some(f) => {
            if f.wire_type != 2 {
                return Err(DecodeError);
            }
            proof {
                lemma_first_within(s@, views(fs@), n as nat);
            }
            bool_wrapper(payload(s, f))
        },
    }
}

proof fn lemma_first_in(fs: Seq<FieldSpec>, n: nat)
    ensures
        first_number(fs, n) matches Some(f) ==> exists|k: int|
            0 <= k < fs.len() && fs[k] == f && #[trigger] fs[k].number == n,
    decreases fs.len(),
{
    if fs.len() > 0 {
        lemma_first_in(fs.drop_last(), n);
        if let Some(f) = first_number(fs.drop_last(), n) {
            let k = choose|k: int|
                0 <= k < fs.drop_last().len() && fs.drop_last()[k] == f
                    && #[trigger] fs.drop_last()[k].number == n;
            assert(fs[k] == f);
        } else if fs.last().number == n {
            assert(fs[fs.len() - 1] == fs.last());
        }
    }
}

proof fn lemma_first_within(s: Seq<u8>, fs: Seq<FieldSpec>, n: nat)
    requires
        fields_within(s, fs),
    ensures
        first_number(fs, n) matches Some(f) ==> 0 <= f.start < f.payload <= f.end <= s.len(),
{
    lemma_first_in(fs, n);
    if let Some(f) = first_number(fs, n) {
        let k = choose|k: int| 0 <= k < fs.len() && fs[k] == f && #[trigger] fs[k].number == n;
        assert(0 <= fs[k].start < fs[k].payload <= fs[k].end <= s.len());
    }
}

/// Reads a 32-bit integer stored as a varint in field `n`.
fn u32_field(fs: &Vec<Field>, n: u64) -> (r: Result<u32, DecodeError>)
    ensures
        match spec_u32_field(views(fs@), n as nat) {
            Some(v) => r == Ok::<u32, DecodeError>(v as u32),
            None => r is Err,
        },
{
    match unique_field(fs, n)? {
        None => Ok(0),
        Some(f) => if f.wire_type == 0 && f.value <= u32::MAX as u64 {
            Ok(f.value as u32)
        } else {
            Err(DecodeError)
        },
    }
}

/// Reads the bounded sub-message in field `n`.
fn part<'a>(s: &'a [u8], fs: &Vec<Field>, n: u64) -> (r: Result<&'a [u8], DecodeError>)
    requires
        fields_within(s@, views(fs@)),
    ensures
        match spec_part(s@, views(fs@), n as nat) {
            Some(b) => r matches Ok(x) && x@ == b,
            None => r is Err,
        },
{
    match unique_field(fs, n)? {
        None => {
            let empty: &[u8] = slice_subrange(s, 0, 0);
            proof {
                assert(empty@ =~= Seq::<u8>::empty());
            }
            Ok(empty)
        },
        Some(f) => {
            if f.wire_type != 2 || f.value > MAX_SUBTREE as u64 {
                return Err(DecodeError);
            }
            proof {
                lemma_first_within(s@, views(fs@), n as nat);
            }
            Ok(payload(s, f))
        },
    }
}

/// Reads the data version.
fn version(s: &[u8], fs: &Vec<Field>) -> (r: Result<u64, DecodeError>)
    requires
        fields_within(s@, views(fs@)),
    ensures
        match spec_version(s@, views(fs@)) {
            Some(v) => r == Ok::<u64, DecodeError>(v as u64),
            None => r is Err,
        },
{
    match unique_field(fs, 1)? {
        None => Err(DecodeError),
        Some(f) => {
            if f.wire_type != 2 {
                return Err(DecodeError);
            }
            proof {
                lemma_first_within(s@, views(fs@), 1);
            }
            let inner = fields(payload(s, f))?;
            let v = u32_field(&inner, 3)?;
            Ok(v as u64)
        },
    }
}

/// Decodes the settings proto `wire`.
pub fn decode_wire(wire: &[u8]) -> (r: Result<Settings, DecodeError>)
    ensures
        match spec_decode_wire(wire@) {
            Some(v) => r matches Ok(x) && x@ == v,
            None => r is Err,
        },
{
    let fs = fields(wire)?;
    proof {
        lemma_fields_within(wire@, 0);
    }
    let version = version(wire, &fs)?;
    let voice = part(wire, &fs, 5)?;
    let subtree = part(wire, &fs, 7)?;
    let voice_fields = fields(voice)?;
    proof {
        lemma_fields_within(voice@, 0);
    }
    let streaming = flag(voice, &voice_fields, 7, true)?;
    let sub_fields = fields(subtree)?;
    proof {
        lemma_fields_within(subtree@, 0);
    }
    let mut overview = Overview::default();
    overview.streaming = streaming;
    overview.friends_online = flag(subtree, &sub_fields, 12, true)?;
    overview.friend_anniversary = flag(subtree, &sub_fields, 14, true)?;
    overview.profile_updates = flag(subtree, &sub_fields, 16, true)?;
    overview.upcoming_event = flag(subtree, &sub_fields, 22, true)?;
    overview.reactions = u32_field(&sub_fields, 7)?;
    Ok(
        Settings {
            version,
            overview,
            wire: vstd::slice::slice_to_vec(subtree),
            voice_wire: vstd::slice::slice_to_vec(voice),
        },
    )
}

/// Decodes a settings-proto response of `len` bytes, which JSON gave as `response`
/// (`None` where the bytes were not a valid envelope).
pub fn decode_response(len: usize, response: Option<SettingsResponse>) -> (r: Result<
    Settings,
    DecodeError,
>)
    ensures
        match spec_decode_response(len as nat, response) {
            Some(v) => r matches Ok(x) && x@ == v,
            None => r is Err,
        },
{
    if len > MAX_SETTINGS_RESPONSE {
        return Err(DecodeError);
    }
    let response = match response {
        Some(r) => r,
        None => return Err(DecodeError),
    };
    if response.out_of_date {
        return Err(DecodeError);
    }
    let wire = match decode_base64(response.settings.as_str()) {
        Some(w) => w,
        None => return Err(DecodeError),
    };
    decode_wire(wire.as_slice())
}

/// The field and value that an overview change writes, where the wire format has one.
pub open spec fn patch_target(c: Change) -> Option<(nat, nat)> {
    match c {
        Change::Streaming(b) => Some((7, bool_nat(b))),
        Change::FriendsOnline(b) => Some((12, bool_nat(b))),
        Change::FriendAnniversary(b) => Some((14, bool_nat(b))),
        Change::ProfileUpdates(b) => Some((16, bool_nat(b))),
        Change::UpcomingEvent(b) => Some((22, bool_nat(b))),
        Change::Reactions(v) => if v <= 2 {
            Some((7, v as nat))
        } else {
            None
        },
        _ => None,
    }
}

pub open spec fn bool_nat(b: bool) -> nat {
    if b {
        1
    } else {
        0
    }
}

/// The raw bytes of every field of `s` that is not numbered `n`, in order.
pub open spec fn kept_raw(s: Seq<u8>, fs: Seq<FieldSpec>, n: nat) -> Seq<u8>
    decreases fs.len(),
{
    if fs.len() == 0 {
        Seq::empty()
    } else {
        kept_raw(s, fs.drop_last(), n) + if fs.last().number != n {
            raw_of(s, fs.last())
        } else {
            Seq::empty()
        }
    }
}

/// The encoding of the new value: the reaction level is a bare varint, every other
/// preference a wrapper message.
pub open spec fn patch_field(c: Change, n: nat, v: nat) -> Seq<u8> {
    if n == 7 && !(c is Streaming) {
        seq![56u8, v as u8]
    } else {
        integer_wrapper_bytes(n, v)
    }
}

/// The subtree that a patch writes: the current subtree without the changed field, then
/// the changed field.
pub open spec fn patch_subtree(cur: SettingsSpec, c: Change) -> Option<Seq<u8>> {
    match patch_target(c) {
        None => None,
        Some((n, v)) => {
            let src = if c is Streaming {
                cur.voice
            } else {
                cur.wire
            };
            match spec_fields(src) {
                None => None,
                Some(fs) => Some(kept_raw(src, fs, n) + patch_field(c, n, v)),
            }
        },
    }
}

/// The settings proto that a patch sends: the voice subtree (field 5) for streaming,
/// the notification subtree (field 7) otherwise.
pub open spec fn patch_payload(cur: SettingsSpec, c: Change) -> Option<Seq<u8>> {
    match patch_subtree(cur, c) {
        Some(w) => if w.len() > MAX_SUBTREE {
            None
        } else {
            Some(
                message_bytes(
                    if c is Streaming {
                        5
                    } else {
                        7
                    },
                    w,
                ),
            )
        },
        None => None,
    }
}

proof fn lemma_encode_varint_len(v: nat, k: nat)
    requires
        v < pow128(k),
        1 <= k,
    ensures
        1 <= encode_varint(v).len() <= k,
    decreases v,
{
    if v >= 128 {
        assert(pow128(k) == 128 * pow128((k - 1) as nat));
        if k == 1 {
            assert(pow128(0) == 1);
        } else {
            lemma_encode_varint_len(v / 128, (k - 1) as nat);
        }
    }
}

/// Encodes the patch that writes `change` over `current`, in base64.
pub fn encode_patch(current: &Settings, change: Change) -> (r: Result<String, DecodeError>)
    ensures
        match patch_payload(current@, change) {
            Some(p) => r matches Ok(s) && s@ == base64_standard_encode(p)
                && base64_standard_decode(s@) == Some(p),
            None => r is Err,
        },
{
    let (number, value): (u64, u64) = match change {
        Change::Streaming(b) => (7, if b { 1 } else { 0 }),
        Change::FriendsOnline(b) => (12, if b { 1 } else { 0 }),
        Change::FriendAnniversary(b) => (14, if b { 1 } else { 0 }),
        Change::ProfileUpdates(b) => (16, if b { 1 } else { 0 }),
        Change::UpcomingEvent(b) => (22, if b { 1 } else { 0 }),
        Change::Reactions(v) => {
            if v > 2 {
                return Err(DecodeError);
            }
            (7, v as u64)
        },
        _ => return Err(DecodeError),
    };
    let streaming = match change {
        Change::Streaming(_) => true,
        _ => false,
    };
    let src: &[u8] = if streaming {
        current.voice_wire.as_slice()
    } else {
        current.wire.as_slice()
    };
    let fs = fields(src)?;
    proof {
        lemma_fields_within(src@, 0);
    }
    let ghost vs = views(fs@);
    let mut wire: Vec<u8> = Vec::new();
    let mut i: usize = 0;
    while i < fs.len()
        invariant
            i <= fs.len(),
            vs == views(fs@),
            fields_within(src@, vs),
            wire@ == kept_raw(src@, vs.take(i as int), number as nat),
        decreases fs.len() - i,
    {
        proof {
            lemma_take_last(vs, i as int);
        }
        let f = fs[i];
        if f.number != number {
            proof {
                assert(vs[i as int] == f@);
                assert(0 <= vs[i as int].start < vs[i as int].payload <= vs[i as int].end
                    <= src@.len());
            }
            crate::wire::push_range(&mut wire, src, f.start, f.end);
        }
        i = i + 1;
    }
    proof {
        assert(vs.take(fs.len() as int) =~= vs);
    }
    if number == 7 && !streaming {
        wire.push(56u8);
        wire.push(value as u8);
    } else {
        crate::wire::integer_wrapper(number, value, &mut wire);
    }
    proof {
        assert(wire@ == kept_raw(src@, vs, number as nat) + patch_field(
            change,
            number as nat,
            value as nat,
        ));
    }
    if wire.len() > MAX_SUBTREE {
        return Err(DecodeError);
    }
    let mut patch: Vec<u8> = Vec::new();
    crate::wire::message(
        if streaming {
            5
        } else {
            7
        },
        wire.as_slice(),
        &mut patch,
    );
    proof {
        vstd::arithmetic::power::lemma_pow_positive(128, 3);
        reveal_with_fuel(pow128, 4);
        lemma_encode_varint_len(wire@.len() as nat, 3);
        reveal_with_fuel(pow128, 2);
        lemma_encode_varint_len(if streaming { 42nat } else { 58nat }, 1);
    }
    let text = encode_base64(patch.as_slice());
    proof {
        lemma_base64_round_trip(patch@);
    }
    Ok(text)
}

/// The JSON envelope of an email-settings response.
pub struct EmailResponse {
    pub categories: Email,
}

/// Decodes an email-settings response of `len` bytes, which JSON gave as `response`
/// (`None` where the bytes were not a valid envelope).
pub fn decode_email(len: usize, response: Option<EmailResponse>) -> (r: Result<Email, DecodeError>)
    ensures
        len > MAX_EMAIL_RESPONSE ==> r is Err,
        len <= MAX_EMAIL_RESPONSE ==> match response {
            Some(x) => r == Ok::<Email, DecodeError>(x.categories),
            None => r is Err,
        },
{
    if len > MAX_EMAIL_RESPONSE {
        return Err(DecodeError);
    }
    match response {
        Some(x) => Ok(x.categories),
        None => Err(DecodeError),
    }
}

/// An email category as the email-settings API names it.
#[derive(Clone, Copy, Debug, PartialEq, Eq, Structural)]
pub enum EmailCategory {
    Communication,
    Social,
    UpdatesAndAnnouncements,
    Tips,
    RecommendationsAndEvents,
}

impl EmailCategory {
    pub open spec fn spec_key(self) -> &'static str {
        match self {
            EmailCategory::Communication => "communication",
            EmailCategory::Social => "social",
            EmailCategory::UpdatesAndAnnouncements => "updates_and_announcements",
            EmailCategory::Tips => "tips",
            EmailCategory::RecommendationsAndEvents => "recommendations_and_events",
        }
    }

    pub fn key(self) -> (r: &'static str)
        ensures
            r == self.spec_key(),
    {
        match self {
            EmailCategory::Communication => "communication",
            EmailCategory::Social => "social",
            EmailCategory::UpdatesAndAnnouncements => "updates_and_announcements",
            EmailCategory::Tips => "tips",
            EmailCategory::RecommendationsAndEvents => "recommendations_and_events",
        }
    }
}

/// The categories that an email-settings patch sets, with their new values.
pub struct EmailPatch {
    pub categories: Vec<(EmailCategory, bool)>,
}

/// The categories that an email change sets.
pub open spec fn spec_email_patch(c: Change) -> Option<Seq<(EmailCategory, bool)>> {
    match c {
        Change::Communication(b) => Some(seq![(EmailCategory::Communication, b)]),
        Change::Social(b) => Some(seq![(EmailCategory::Social, b)]),
        Change::Announcements(b) => Some(seq![(EmailCategory::UpdatesAndAnnouncements, b)]),
        Change::Tips(b) => Some(seq![(EmailCategory::Tips, b)]),
        Change::Recommendations(b) => Some(seq![(EmailCategory::RecommendationsAndEvents, b)]),
        Change::UnsubscribeMarketing => Some(
            seq![
                (EmailCategory::UpdatesAndAnnouncements, false),
                (EmailCategory::Tips, false),
                (EmailCategory::RecommendationsAndEvents, false),
            ],
        ),
        _ => None,
    }
}

/// The email patch for `change`; overview changes have none.
pub fn email_patch(change: Change) -> (r: Result<EmailPatch, DecodeError>)
    ensures
        match spec_email_patch(change) {
            Some(entries) => r matches Ok(p) && p.categories@ == entries,
            None => r is Err,
        },
{
    let mut categories: Vec<(EmailCategory, bool)> = Vec::new();
    match change {
        Change::Communication(b) => categories.push((EmailCategory::Communication, b)),
        Change::Social(b) => categories.push((EmailCategory::Social, b)),
        Change::Announcements(b) => categories.push((EmailCategory::UpdatesAndAnnouncements, b)),
        Change::Tips(b) => categories.push((EmailCategory::Tips, b)),
        Change::Recommendations(b) => categories.push((EmailCategory::RecommendationsAndEvents, b)),
        Change::UnsubscribeMarketing => {
            categories.push((EmailCategory::UpdatesAndAnnouncements, false));
            categories.push((EmailCategory::Tips, false));
            categories.push((EmailCategory::RecommendationsAndEvents, false));
        },
        _ => return Err(DecodeError),
    }
    proof {
        assert(categories@ =~= spec_email_patch(change)->0);
    }
    Ok(EmailPatch { categories })
}

/// The email preferences after a server sets the categories of a patch, in order.
pub open spec fn apply_email_patch(v: Email, entries: Seq<(EmailCategory, bool)>) -> Email
    decreases entries.len(),
{
    if entries.len() == 0 {
        v
    } else {
        let (k, b) = entries.last();
        let u = apply_email_patch(v, entries.drop_last());
        match k {
            EmailCategory::Communication => Email { communication: b, ..u },
            EmailCategory::Social => Email { social: b, ..u },
            EmailCategory::UpdatesAndAnnouncements => Email { announcements: b, ..u },
            EmailCategory::Tips => Email { tips: b, ..u },
            EmailCategory::RecommendationsAndEvents => Email { recommendations: b, ..u },
        }
    }
}

/// An email patch writes exactly its change: setting its categories gives the preferences
/// with the change applied, whatever they were.
pub proof fn law_email_patch_applies_change(c: Change, v: Email)
    requires
        spec_email_patch(c) is Some,
    ensures
        apply_email_patch(v, spec_email_patch(c)->0) == c.email_after(v),
{
    let e = spec_email_patch(c)->0;
    reveal_with_fuel(apply_email_patch, 4);
    if c is UnsubscribeMarketing {
        assert(e.drop_last().drop_last().drop_last() =~= Seq::<(EmailCategory, bool)>::empty());
        assert(e.drop_last().drop_last().last() == (EmailCategory::UpdatesAndAnnouncements, false));
        assert(e.drop_last().last() == (EmailCategory::Tips, false));
    } else {
        assert(e.drop_last() =~= Seq::<(EmailCategory, bool)>::empty());
    }
}

/// A notification-center item as its JSON holds it.
pub struct NotificationItem {
    pub id: Id,
    pub kind: String,
    pub body: String,
    pub acked: bool,
    pub completed: bool,
    pub message_channel_id: Option<Id>,
    pub guild_id: Option<Id>,
    pub other_user: Option<Id>,
}

/// The kinds of notification-center item that are shown.
pub open spec fn spec_social_kind(kind: Seq<char>) -> Option<SocialKind> {
    if kind == "go_live_push"@ {
        Some(SocialKind::Streaming)
    } else if kind == "scheduled_guild_event_started"@ {
        Some(SocialKind::UpcomingEvent)
    } else if kind == "reaction_sent"@ {
        Some(SocialKind::Reaction)
    } else {
        None
    }
}

/// The characters of a body that are shown: no control characters but line breaks.
pub open spec fn shown_chars(s: Seq<char>) -> Seq<char>
    decreases s.len(),
{
    if s.len() == 0 {
        Seq::empty()
    } else {
        shown_chars(s.drop_last()) + if !crate::text::spec_is_control(s.last()) || s.last()
            == '\n' {
            seq![s.last()]
        } else {
            Seq::empty()
        }
    }
}

/// Whether a notification-center item of `len` bytes, which JSON gave as `item`, is refused.
pub open spec fn spec_item_refused(len: nat, item: Option<NotificationItem>) -> bool {
    len > MAX_SOCIAL_ITEM || item is None || (!item->0.acked && !item->0.completed
        && spec_social_kind(item->0.kind@) is Some && (item->0.body@.len() == 0
        || crate::model::encode_utf8_len(item->0.body@) > MAX_SOCIAL_BODY))
}

/// Whether such an item, where it is not refused, is shown.
pub open spec fn spec_item_shown(item: NotificationItem) -> bool {
    !item.acked && !item.completed && spec_social_kind(item.kind@) is Some
}

/// Reads a notification-center item of `len` bytes, which JSON gave as `item`
/// (`None` where the bytes were not a valid item). Unknown kinds, and items already
/// acknowledged or completed, are ignored without error.
pub fn social_notification(len: usize, item: Option<NotificationItem>) -> (r: Result<
    Option<SocialNotification>,
    DecodeError,
>)
    ensures
        spec_item_refused(len as nat, item) <==> r is Err,
        !spec_item_refused(len as nat, item) ==> (r matches Ok(o) && (o is Some
            <==> spec_item_shown(item->0))),
        r matches Ok(Some(n)) ==> ({
            let x = item->0;
            &&& n.id == x.id
            &&& Some(n.kind) == spec_social_kind(x.kind@)
            &&& n.body@ == shown_chars(x.body@)
            &&& n.channel == x.message_channel_id
            &&& n.guild == x.guild_id
            &&& n.other_user == x.other_user
        }),
{
    if len > MAX_SOCIAL_ITEM {
        return Err(DecodeError);
    }
    let item = match item {
        Some(x) => x,
        None => return Err(DecodeError),
    };
    if item.acked || item.completed {
        return Ok(None);
    }
    let k = item.kind.as_str();
    let kind = if crate::text::str_eq(k, "go_live_push") {
        SocialKind::Streaming
    } else if crate::text::str_eq(k, "scheduled_guild_event_started") {
        SocialKind::UpcomingEvent
    } else if crate::text::str_eq(k, "reaction_sent") {
        SocialKind::Reaction
    } else {
        return Ok(None);
    };
    let text = item.body.as_str();
    if text.is_empty() || crate::text::string_len(&item.body) > MAX_SOCIAL_BODY {
        return Err(DecodeError);
    }
    let body = shown_body(text);
    Ok(
        Some(
            SocialNotification {
                id: item.id,
                kind,
                body,
                channel: item.message_channel_id,
                guild: item.guild_id,
                other_user: item.other_user,
            },
        ),
    )
}

/// The characters of `text` that are shown.
fn shown_body(text: &str) -> (r: String)
    ensures
        r@ == shown_chars(text@),
{
    let n = text.unicode_len();
    let mut out = String::new();
    let mut i: usize = 0;
    while i < n
        invariant
            n == text@.len(),
            i <= n,
            out@ == shown_chars(text@.take(i as int)),
        decreases n - i,
    {
        let c = text.get_char(i);
        proof {
            assert(text@.take(i + 1).drop_last() =~= text@.take(i as int));
            assert(text@.take(i + 1).last() == c);
        }
        if !crate::text::is_control(c) || c == '\n' {
            crate::text::string_push(&mut out, c);
        } else {
            proof {
                assert(out@ + Seq::<char>::empty() =~= out@);
            }
        }
        i = i + 1;
    }
    proof {
        assert(text@.take(n as int) =~= text@);
    }
    out
}

} // verus!
