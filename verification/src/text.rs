//! Character classes and string comparisons that the rules on names and bodies use.
use vstd::prelude::*;
use vstd::string::StrSliceExecFns;

verus! {

/// Unicode's control characters (general category Cc): U+0000 to U+001F and U+007F to U+009F.
pub open spec fn spec_is_control(c: char) -> bool {
    (c as u32) <= 0x1f || (0x7f <= (c as u32) && (c as u32) <= 0x9f)
}

pub fn is_control(c: char) -> (r: bool)
    ensures
        r == spec_is_control(c),
{
    let v = c as u32;
    v <= 0x1f || (0x7f <= v && v <= 0x9f)
}

/// Whether two strings hold the same characters.
pub fn str_eq(a: &str, b: &str) -> (r: bool)
    ensures
        r == (a@ == b@),
{
    let n = a.unicode_len();
    if n != b.unicode_len() {
        return false;
    }
    let mut i: usize = 0;
    while i < n
        invariant
            n == a@.len(),
            n == b@.len(),
            i <= n,
            forall|k: int| 0 <= k < i ==> a@[k] == b@[k],
        decreases n - i,
    {
        if a.get_char(i) != b.get_char(i) {
            return false;
        }
        i = i + 1;
    }
    proof {
        assert(a@ =~= b@);
    }
    true
}

/// Whether any character of `s` is a control character.
pub fn has_control(s: &str) -> (r: bool)
    ensures
        r == exists|k: int| 0 <= k < s@.len() && spec_is_control(#[trigger] s@[k]),
{
    let n = s.unicode_len();
    let mut i: usize = 0;
    while i < n
        invariant
            n == s@.len(),
            i <= n,
            forall|k: int| 0 <= k < i ==> !spec_is_control(#[trigger] s@[k]),
        decreases n - i,
    {
        if is_control(s.get_char(i)) {
            return true;
        }
        i = i + 1;
    }
    false
}

/// `String::push`.
/// Claims that the character is appended to the string's characters.
#[verifier::external_body]
pub fn string_push(s: &mut String, c: char)
    ensures
        final(s)@ == old(s)@.push(c),
{
    s.push(c);
}

/// `String::len`.
/// Claims that the result is the number of bytes of the string's UTF-8 encoding.
#[verifier::external_body]
pub fn string_len(s: &String) -> (r: usize)
    ensures
        r == vstd::utf8::encode_utf8(s@).len(),
{
    s.len()
}

} // verus!
