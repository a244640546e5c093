//! The verification widget's rules: which page may talk to it, the capability that binds
//! its messages, what its local page is served as, and what a message from it means.
use crate::text::{str_eq, string_len};
use vstd::prelude::*;
use vstd::string::StrSliceExecFns;

verus! {

/// The parts of a parsed URL that the origin check reads.
pub struct UrlParts {
    pub scheme: String,
    pub host: Option<String>,
    pub port: Option<u16>,
    pub username: String,
    pub password: Option<String>,
    pub path: String,
    pub query: Option<String>,
}

/// What a parsed URL holds, as characters.
pub struct UrlPartsView {
    pub scheme: Seq<char>,
    pub host: Option<Seq<char>>,
    pub port: Option<u16>,
    pub username: Seq<char>,
    pub password: Option<Seq<char>>,
    pub path: Seq<char>,
    pub query: Option<Seq<char>>,
}

pub open spec fn opt_chars(s: Option<String>) -> Option<Seq<char>> {
    match s {
        Some(x) => Some(x@),
        None => None,
    }
}

impl View for UrlParts {
    type V = UrlPartsView;

    open spec fn view(&self) -> UrlPartsView {
        UrlPartsView {
            scheme: self.scheme@,
            host: opt_chars(self.host),
            port: self.port,
            username: self.username@,
            password: opt_chars(self.password),
            path: self.path@,
            query: opt_chars(self.query),
        }
    }
}

/// What the url crate parses `input` to (scheme, host, port or the scheme's default, user
/// name, password, path, query), or `None` where it refuses it.
pub uninterp spec fn url_parts(input: Seq<char>) -> Option<UrlPartsView>;

/// `url::Url::parse`, read through `scheme`, `host_str`, `port_or_known_default`,
/// `username`, `password`, `path` and `query`.
/// Claims that the parts are those of the parse that the name stands for, and `None` where
/// the parse fails.
#[verifier::external_body]
fn parse_url(input: &str) -> (r: Option<UrlParts>)
    ensures
        match url_parts(input@) {
            Some(v) => r matches Some(p) && p@ == v,
            None => r is None,
        },
{
    match url::Url::parse(input) {
        Ok(u) => Some(UrlParts {
            scheme: u.scheme().to_string(),
            host: u.host_str().map(str::to_string),
            port: u.port_or_known_default(),
            username: u.username().to_string(),
            password: u.password().map(str::to_string),
            path: u.path().to_string(),
            query: u.query().map(str::to_string),
        }),
        Err(_) => None,
    }
}

/// The widget's own local page: https, its own host on port 443, no user, the root path
/// and no query.
pub open spec fn is_own_origin(p: UrlPartsView) -> bool {
    &&& p.scheme == "https"@
    &&& p.host == Some("serein-captcha.verification.invalid"@)
    &&& p.port == Some(443u16)
    &&& p.username.len() == 0
    &&& p.password is None
    &&& p.path == "/"@
    &&& p.query is None
}

/// Whether the parts of a parsed URL are those of the widget's own local page.
pub fn origin_is_own(url: &UrlParts) -> (r: bool)
    ensures
        r == is_own_origin(url@),
{
    let host = match &url.host {
        Some(h) => str_eq(h.as_str(), "serein-captcha.verification.invalid"),
        None => false,
    };
    let port = match url.port {
        Some(p) => p == 443,
        None => false,
    };
    str_eq(url.scheme.as_str(), "https") && host && port && url.username.as_str().is_empty()
        && url.password.is_none() && str_eq(url.path.as_str(), "/") && url.query.is_none()
}

/// Whether `value` is the widget's own local page.
pub fn own_origin(value: &str) -> (r: bool)
    ensures
        r == (url_parts(value@) matches Some(p) && is_own_origin(p)),
{
    match parse_url(value) {
        Some(u) => origin_is_own(&u),
        None => false,
    }
}

/// The number of random bytes behind a capability.
pub const CAPABILITY_BYTES: usize = 32;

/// The longest message, in UTF-8 bytes, that the page may post.
pub const MAX_IPC_MESSAGE: usize = 8270;

/// How long the widget may stay open, in seconds.
pub const LIFETIME_SECS: u64 = 300;

/// The lower-case hexadecimal digit for `n`, below 16.
pub open spec fn hex_digit(n: int) -> char {
    if n < 10 {
        (n + 48) as char
    } else {
        (n + 87) as char
    }
}

/// Each byte as two lower-case hexadecimal digits, high digit first.
pub open spec fn hex_chars(bytes: Seq<u8>) -> Seq<char>
    decreases bytes.len(),
{
    if bytes.len() == 0 {
        Seq::empty()
    } else {
        hex_chars(bytes.drop_last()) + seq![
            hex_digit(bytes.last() as int / 16),
            hex_digit(bytes.last() as int % 16),
        ]
    }
}

/// The capability made of `random`: its bytes in hexadecimal, then a colon.
pub open spec fn spec_capability(random: Seq<u8>) -> Seq<char> {
    hex_chars(random).push(':')
}

fn hex_digit_char(n: u8) -> (c: char)
    requires
        n < 16,
    ensures
        c == hex_digit(n as int),
{
    if n < 10 {
        (n + 48) as char
    } else {
        (n + 87) as char
    }
}

/// The capability that the page must put before each message, made of `random`.
pub fn capability(random: &[u8; 32]) -> (r: String)
    ensures
        r@ == spec_capability(random@),
{
    let mut out = String::new();
    let mut i: usize = 0;
    while i < CAPABILITY_BYTES
        invariant
            i <= CAPABILITY_BYTES,
            random@.len() == CAPABILITY_BYTES,
            out@ == hex_chars(random@.take(i as int)),
        decreases CAPABILITY_BYTES - i,
    {
        let b = random[i];
        proof {
            assert(random@.take(i as int + 1).drop_last() =~= random@.take(i as int));
        }
        crate::text::string_push(&mut out, hex_digit_char(b / 16));
        crate::text::string_push(&mut out, hex_digit_char(b % 16));
        proof {
            assert(out@ =~= hex_chars(random@.take(i as int + 1)));
        }
        i = i + 1;
    }
    proof {
        assert(random@.take(CAPABILITY_BYTES as int) =~= random@);
    }
    crate::text::string_push(&mut out, ':');
    out
}

/// `getrandom::fill` on 32 bytes.
/// Claims nothing of the bytes, which come from the system's source of randomness; `None`
/// where that source fails.
#[verifier::external_body]
fn random_bytes() -> (r: Option<[u8; 32]>) {
    let mut random = [0u8; 32];
    match getrandom::fill(&mut random) {
        Ok(()) => Some(random),
        Err(_) => None,
    }
}

/// A fresh capability for one widget, from the system's randomness, or the message shown
/// where the randomness is unavailable.
pub fn new_capability() -> (r: Result<String, &'static str>)
    ensures
        match r {
            Ok(c) => exists|b: Seq<u8>| b.len() == CAPABILITY_BYTES && #[trigger] spec_capability(b)
                == c@,
            Err(e) => e == "Verification could not start.",
        },
{
    match random_bytes() {
        Some(random) => {
            let c = capability(&random);
            proof {
                assert(spec_capability(random@) == c@);
            }
            Ok(c)
        },
        None => Err("Verification could not start."),
    }
}

/// The local page's address, which is all that the widget serves.
pub open spec fn page_uri() -> Seq<char> {
    "serein-captcha://verification.invalid/"@
}

/// The status the widget's local protocol answers with: the page for a `GET` of its
/// address, nothing found otherwise.
pub fn page_status(method: &str, uri: &str) -> (r: u16)
    ensures
        r == (if method@ == "GET"@ && uri@ == page_uri() {
            200u16
        } else {
            404u16
        }),
{
    if str_eq(method, "GET") && str_eq(uri, "serein-captcha://verification.invalid/") {
        200
    } else {
        404
    }
}

/// The page's colours: the theme's name, the background and the text colour.
#[derive(Clone, Copy, Debug, PartialEq, Eq)]
pub struct Theme {
    pub name: &'static str,
    pub background: &'static str,
    pub foreground: &'static str,
}

pub open spec fn spec_theme(dark: bool) -> Theme {
    if dark {
        Theme { name: "dark", background: "#18191c", foreground: "#dbdee1" }
    } else {
        Theme { name: "light", background: "#f7f8fa", foreground: "#313338" }
    }
}

/// The page's colours in the dark or the light theme.
pub fn theme(dark: bool) -> (r: Theme)
    ensures
        r == spec_theme(dark),
{
    if dark {
        Theme { name: "dark", background: "#18191c", foreground: "#dbdee1" }
    } else {
        Theme { name: "light", background: "#f7f8fa", foreground: "#313338" }
    }
}

/// `s` with every occurrence of `pat` replaced by `rep`, matched from the left without
/// overlap.
pub open spec fn spec_replace(s: Seq<char>, pat: Seq<char>, rep: Seq<char>) -> Seq<char>
    decreases s.len(),
{
    if s.len() == 0 {
        Seq::empty()
    } else if 0 < pat.len() <= s.len() && s.subrange(0, pat.len() as int) == pat {
        rep + spec_replace(s.skip(pat.len() as int), pat, rep)
    } else {
        seq![s[0]] + spec_replace(s.skip(1), pat, rep)
    }
}

/// Whether `s` holds `pat` at `i`.
fn holds_at(s: &str, n: usize, i: usize, pat: &str, k: usize) -> (r: bool)
    requires
        n == s@.len(),
        k == pat@.len(),
        i <= n,
    ensures
        r == (i + k <= n && s@.skip(i as int).subrange(0, k as int) == pat@),
{
    if k > n - i {
        return false;
    }
    let mut j: usize = 0;
    while j < k
        invariant
            n == s@.len(),
            k == pat@.len(),
            i + k <= n,
            j <= k,
            forall|m: int| 0 <= m < j ==> s@[i + m] == pat@[m],
        decreases k - j,
    {
        if s.get_char(i + j) != pat.get_char(j) {
            proof {
                assert(s@.skip(i as int).subrange(0, k as int)[j as int] == s@[i + j]);
            }
            return false;
        }
        j = j + 1;
    }
    proof {
        assert(s@.skip(i as int).subrange(0, k as int) =~= pat@);
    }
    true
}

fn replace_all(s: &str, pat: &str, rep: &str) -> (r: String)
    requires
        pat@.len() > 0,
    ensures
        r@ == spec_replace(s@, pat@, rep@),
{
    let n = s.unicode_len();
    let k = pat.unicode_len();
    let mut out = String::new();
    let mut i: usize = 0;
    proof {
        assert(s@.skip(0) =~= s@);
    }
    while i < n
        invariant
            n == s@.len(),
            k == pat@.len(),
            k > 0,
            i <= n,
            out@ + spec_replace(s@.skip(i as int), pat@, rep@) == spec_replace(s@, pat@, rep@),
        decreases n - i,
    {
        let ghost t = s@.skip(i as int);
        if holds_at(s, n, i, pat, k) {
            proof {
                assert(t.skip(k as int) =~= s@.skip(i + k));
                assert(out@ + rep@ + spec_replace(s@.skip(i + k), pat@, rep@) =~= out@ + (rep@
                    + spec_replace(t.skip(k as int), pat@, rep@)));
            }
            <String as vstd::string::StringExecFns>::append(&mut out, rep);
            i = i + k;
        } else {
            let c = s.get_char(i);
            proof {
                assert(t[0] == c);
                assert(t.skip(1) =~= s@.skip(i + 1));
                assert(out@.push(c) + spec_replace(s@.skip(i + 1), pat@, rep@) =~= out@ + (seq![c]
                    + spec_replace(t.skip(1), pat@, rep@)));
            }
            crate::text::string_push(&mut out, c);
            i = i + 1;
        }
    }
    proof {
        assert(s@.skip(n as int) =~= Seq::<char>::empty());
        assert(out@ + Seq::<char>::empty() =~= out@);
    }
    out
}

/// The page's text: `template` with its theme's name, background and text colour put in
/// for `__THEME__`, `__BACKGROUND__` and `__FOREGROUND__`, in that order.
pub fn page_text(template: &str, dark: bool) -> (r: String)
    ensures
        r@ == spec_replace(
            spec_replace(
                spec_replace(template@, "__THEME__"@, spec_theme(dark).name@),
                "__BACKGROUND__"@,
                spec_theme(dark).background@,
            ),
            "__FOREGROUND__"@,
            spec_theme(dark).foreground@,
        ),
{
    let t = theme(dark);
    proof {
        reveal_strlit("__THEME__");
        reveal_strlit("__BACKGROUND__");
        reveal_strlit("__FOREGROUND__");
    }
    let a = replace_all(template, "__THEME__", t.name);
    let b = replace_all(a.as_str(), "__BACKGROUND__", t.background);
    replace_all(b.as_str(), "__FOREGROUND__", t.foreground)
}

/// The widget shows only where it has room.
pub fn visible(width: u32, height: u32) -> (r: bool)
    ensures
        r == (width > 0 && height > 0),
{
    width > 0 && height > 0
}

/// The widget closes once it has been open for its lifetime.
pub fn expired(elapsed_secs: u64) -> (r: bool)
    ensures
        r == (elapsed_secs >= LIFETIME_SECS),
{
    elapsed_secs >= LIFETIME_SECS
}

/// `s` without the prefix `p`, where `s` starts with it.
pub open spec fn spec_strip_prefix(s: Seq<char>, p: Seq<char>) -> Option<Seq<char>> {
    if p.len() <= s.len() && s.subrange(0, p.len() as int) == p {
        Some(s.subrange(p.len() as int, s.len() as int))
    } else {
        None
    }
}

fn strip_prefix<'a>(s: &'a str, p: &str) -> (r: Option<&'a str>)
    ensures
        match spec_strip_prefix(s@, p@) {
            Some(v) => r matches Some(x) && x@ == v,
            None => r is None,
        },
{
    let n = s.unicode_len();
    let k = p.unicode_len();
    if k > n {
        return None;
    }
    let mut i: usize = 0;
    while i < k
        invariant
            k <= n,
            n == s@.len(),
            k == p@.len(),
            i <= k,
            forall|j: int| 0 <= j < i ==> s@[j] == p@[j],
        decreases k - i,
    {
        if s.get_char(i) != p.get_char(i) {
            proof {
                assert(s@.subrange(0, k as int)[i as int] != p@[i as int]);
            }
            return None;
        }
        i = i + 1;
    }
    proof {
        assert(s@.subrange(0, k as int) =~= p@);
    }
    Some(s.substring_char(k, n))
}

/// What a message from the page means.
pub enum IpcOutcome {
    /// The challenge was passed; the passcode.
    Verified(String),
    /// The challenge ended without a passcode; the message shown.
    Failed(&'static str),
}

pub enum IpcOutcomeView {
    Verified(Seq<char>),
    Failed(&'static str),
}

impl View for IpcOutcome {
    type V = IpcOutcomeView;

    open spec fn view(&self) -> IpcOutcomeView {
        match self {
            IpcOutcome::Verified(s) => IpcOutcomeView::Verified(s@),
            IpcOutcome::Failed(m) => IpcOutcomeView::Failed(*m),
        }
    }
}

/// What a message's text, after the capability, means: a passcode after `verified:`, or one
/// of the three endings; anything else means nothing.
pub open spec fn payload_outcome(payload: Seq<char>) -> Option<IpcOutcomeView> {
    match spec_strip_prefix(payload, "verified:"@) {
        Some(v) => Some(IpcOutcomeView::Verified(v)),
        None => if payload == "cancelled:"@ {
            Some(IpcOutcomeView::Failed("Verification cancelled."))
        } else if payload == "expired:"@ {
            Some(IpcOutcomeView::Failed("Verification expired. Please try again."))
        } else if payload == "error:"@ {
            Some(
                IpcOutcomeView::Failed(
                    "Verification could not load. Try again or open the invite in Discord.",
                ),
            )
        } else {
            None
        },
    }
}

/// What a message posted from `uri` means: only the widget's own page is heard, only
/// messages of bounded size, and only those that start with the capability.
pub open spec fn spec_ipc_outcome(uri: Seq<char>, body: Seq<char>, capability: Seq<char>) -> Option<
    IpcOutcomeView,
> {
    if !(url_parts(uri) matches Some(p) && is_own_origin(p)) || vstd::utf8::encode_utf8(body).len()
        > MAX_IPC_MESSAGE {
        None
    } else {
        match spec_strip_prefix(body, capability) {
            Some(payload) => payload_outcome(payload),
            None => None,
        }
    }
}

/// Only the widget's own page is heard, and only with the capability: a message that means
/// anything came from the own page, fits the size bound and starts with the capability.
pub proof fn law_heard_only_from_own_page_with_capability(
    uri: Seq<char>,
    body: Seq<char>,
    capability: Seq<char>,
)
    ensures
        spec_ipc_outcome(uri, body, capability) is Some ==> {
            &&& url_parts(uri) matches Some(p) && is_own_origin(p)
            &&& vstd::utf8::encode_utf8(body).len() <= MAX_IPC_MESSAGE
            &&& capability.len() <= body.len()
            &&& body.subrange(0, capability.len() as int) == capability
        },
{
}

/// `zeroize::Zeroize::zeroize` on a `String`.
/// Claims that the string is left empty (its bytes are overwritten with zeros first).
#[verifier::external_body]
fn wipe(s: &mut String)
    ensures
        final(s)@.len() == 0,
{
    zeroize::Zeroize::zeroize(s);
}

/// Whether the passcode check answered `accepted` on the text `v`.
pub open spec fn passcode_answer<F: Fn(&str) -> bool>(accepts: F, v: Seq<char>, accepted: bool) -> bool {
    exists|s: &str| s@ == v && call_ensures(accepts, (s,), accepted)
}

/// What is heard of a message that means `o`: a passcode only where the check accepts it.
pub open spec fn heard<F: Fn(&str) -> bool>(accepts: F, o: Option<IpcOutcomeView>, r: Option<IpcOutcome>) -> bool {
    match o {
        Some(IpcOutcomeView::Verified(v)) => {
            ||| (r matches Some(IpcOutcome::Verified(x)) && x@ == v && passcode_answer(accepts, v, true))
            ||| (r is None && passcode_answer(accepts, v, false))
        },
        Some(f) => r matches Some(x) && x@ == f,
        None => r is None,
    }
}

fn payload_message<F: Fn(&str) -> bool>(payload: &str, accepts: &F) -> (r: Option<IpcOutcome>)
    requires
        forall|s: &str| call_requires(*accepts, (s,)),
    ensures
        heard(*accepts, payload_outcome(payload@), r),
{
    if let Some(value) = strip_prefix(payload, "verified:") {
        if accepts(value) {
            return Some(IpcOutcome::Verified(value.to_owned()));
        } else {
            return None;
        }
    }
    if str_eq(payload, "cancelled:") {
        Some(IpcOutcome::Failed("Verification cancelled."))
    } else if str_eq(payload, "expired:") {
        Some(IpcOutcome::Failed("Verification expired. Please try again."))
    } else if str_eq(payload, "error:") {
        Some(
            IpcOutcome::Failed(
                "Verification could not load. Try again or open the invite in Discord.",
            ),
        )
    } else {
        None
    }
}

/// Reads a message that the page posted from `uri`, then wipes its text. A passcode is
/// heard only where `accepts`, the check that a passcode is well formed, accepts it.
pub fn ipc_message<F: Fn(&str) -> bool>(
    uri: &str,
    body: &mut String,
    capability: &str,
    accepts: F,
) -> (r: Option<IpcOutcome>)
    requires
        forall|s: &str| call_requires(accepts, (s,)),
    ensures
        heard(accepts, spec_ipc_outcome(uri@, old(body)@, capability@), r),
        final(body)@.len() == 0,
{
    let r = if !own_origin(uri) || string_len(body) > MAX_IPC_MESSAGE {
        None
    } else {
        match strip_prefix(body.as_str(), capability) {
            Some(payload) => payload_message(payload, &accepts),
            None => None,
        }
    };
    wipe(body);
    r
}

pub open spec fn opt_outcome(o: Option<IpcOutcome>) -> Option<IpcOutcomeView> {
    match o {
        Some(x) => Some(x@),
        None => None,
    }
}

/// The widget's one-slot mailbox: a heard message waits there until it is polled, and a
/// message heard while one waits is dropped.
pub struct Mailbox {
    slot: Option<IpcOutcome>,
}

impl View for Mailbox {
    type V = Option<IpcOutcomeView>;

    closed spec fn view(&self) -> Option<IpcOutcomeView> {
        opt_outcome(self.slot)
    }
}

/// The mailbox after a message that is heard as `heard`, and whether the window must wake
/// to poll it: only a heard message, into an empty slot.
pub open spec fn spec_deliver(slot: Option<IpcOutcomeView>, heard: Option<IpcOutcomeView>) -> (
    Option<IpcOutcomeView>,
    bool,
) {
    match heard {
        Some(h) => if slot is None {
            (Some(h), true)
        } else {
            (slot, false)
        },
        None => (slot, false),
    }
}

impl Mailbox {
    pub fn new() -> (r: Mailbox)
        ensures
            r@ is None,
    {
        Mailbox { slot: None }
    }

    /// Keeps what a message was heard as, where the slot is free; returns whether the
    /// window must wake.
    pub fn deliver(&mut self, heard: Option<IpcOutcome>) -> (wake: bool)
        ensures
            (final(self)@, wake) == spec_deliver(old(self)@, opt_outcome(heard)),
    {
        match heard {
            Some(h) => if self.slot.is_none() {
                self.slot = Some(h);
                true
            } else {
                false
            },
            None => false,
        }
    }

    /// Hands out the waiting result, if any, and empties the slot.
    pub fn poll(&mut self) -> (r: Option<IpcOutcome>)
        ensures
            opt_outcome(r) == old(self)@,
            final(self)@ is None,
    {
        self.slot.take()
    }
}

/// Reads a message that the page posted, hands it to the mailbox, and returns whether the
/// window must wake: only for a message that is heard, with the slot free.
pub fn receive_ipc<F: Fn(&str) -> bool>(
    mailbox: &mut Mailbox,
    uri: &str,
    body: &mut String,
    capability: &str,
    accepts: F,
) -> (wake: bool)
    requires
        forall|s: &str| call_requires(accepts, (s,)),
    ensures
        exists|r: Option<IpcOutcome>|
            heard(accepts, spec_ipc_outcome(uri@, old(body)@, capability@), r) && (
            final(mailbox)@,
            wake,
        ) == spec_deliver(old(mailbox)@, opt_outcome(r)),
        final(body)@.len() == 0,
{
    let r = ipc_message(uri, body, capability, accepts);
    mailbox.deliver(r)
}

} // verus!
