//! Small string helpers: ASCII case folding and character-level string
//! building, shared by the configuration and email-client modules.

use vstd::prelude::*;

verus! {

/// ASCII lowercase mapping: `'A'..='Z'` move down to `'a'..='z'`, every
/// other character is unchanged.
pub open spec fn ascii_lower_char(c: char) -> char {
    if 65 <= c as u32 && c as u32 <= 90 {
        ((c as u32 + 32) as char)
    } else {
        c
    }
}

/// The two sequences match letter for letter once ASCII case is folded.
pub open spec fn ascii_eq_ignore_case(a: Seq<char>, b: Seq<char>) -> bool {
    &&& a.len() == b.len()
    &&& forall|i: int|
        0 <= i < a.len() ==> #[trigger] ascii_lower_char(a[i]) == ascii_lower_char(b[i])
}

/// ASCII-lowercase one character.
pub fn lower_char(c: char) -> (r: char)
    ensures
        r == ascii_lower_char(c),
{
    let n = c as u32;
    if 65 <= n && n <= 90 {
        proof {
            vstd::utf8::char_is_scalar(c);
        }
        ((n as u8) + 32) as char
    } else {
        c
    }
}

/// Compare two strings for equality up to ASCII case.
pub fn eq_ignore_ascii_case(a: &str, b: &str) -> (r: bool)
    ensures
        r == ascii_eq_ignore_case(a@, b@),
{
    let a_len = a.unicode_len();
    if a_len != b.unicode_len() {
        return false;
    }
    for i in 0..a_len
        invariant
            a_len == a@.len(),
            a_len == b@.len(),
            forall|j: int|
                0 <= j < i ==> #[trigger] ascii_lower_char(a@[j]) == ascii_lower_char(b@[j]),
    {
        let ca = lower_char(a.get_char(i));
        let cb = lower_char(b.get_char(i));
        if ca != cb {
            return false;
        }
    }
    true
}

/// Relies on `String::push`: it appends the given character at the end.
#[verifier::external_body]
pub fn push_char(s: &mut String, c: char)
    ensures
        final(s)@ == old(s)@.push(c),
{
    s.push(c)
}

} // verus!
