//! Small helpers over the characters of strings.
use vstd::prelude::*;
use vstd::string::StrSliceExecFns;

verus! {

/// `String::push`: appends one character.
#[verifier::external_body]
pub(crate) fn string_push(s: &mut String, c: char)
    ensures
        final(s)@ == old(s)@.push(c),
{
    s.push(c)
}

/// Appends the characters of `extra`.
pub fn string_push_str(s: &mut String, extra: &str)
    ensures
        final(s)@ == old(s)@ + extra@,
{
    let n = extra.unicode_len();
    let ghost start = s@;
    let mut k: usize = 0;
    while k < n
        invariant
            k <= n == extra@.len(),
            s@ == start + extra@.subrange(0, k as int),
        decreases n - k,
    {
        string_push(s, extra.get_char(k));
        k = k + 1;
        assert(s@ =~= start + extra@.subrange(0, k as int));
    }
    assert(extra@.subrange(0, n as int) =~= extra@);
}

/// Whether two strings hold the same characters.
pub fn str_equal(a: &str, b: &str) -> (eq: bool)
    ensures
        eq == (a@ == b@),
{
    let n = a.unicode_len();
    if n != b.unicode_len() {
        return false;
    }
    let mut k: usize = 0;
    while k < n
        invariant
            k <= n == a@.len() == b@.len(),
            forall|j: int| 0 <= j < k ==> a@[j] == b@[j],
        decreases n - k,
    {
        if a.get_char(k) != b.get_char(k) {
            return false;
        }
        k = k + 1;
    }
    assert(a@ =~= b@);
    true
}

/// Whether the string holds exactly these characters.
pub fn str_is(s: &str, expected: &[char]) -> (eq: bool)
    ensures
        eq == (s@ == expected@),
{
    let n = s.unicode_len();
    if n != expected.len() {
        return false;
    }
    let mut k: usize = 0;
    while k < n
        invariant
            k <= n == s@.len() == expected@.len(),
            forall|j: int| 0 <= j < k ==> s@[j] == expected@[j],
        decreases n - k,
    {
        if s.get_char(k) != expected[k] {
            return false;
        }
        k = k + 1;
    }
    assert(s@ =~= expected@);
    true
}

} // verus!
