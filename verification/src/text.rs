//! Small executable helpers on strings and characters.

use vstd::prelude::*;
use crate::path_model::{is_ascii_letter, is_sep, upcase};

verus! {

/// Relies on `String::push`: appends the given character to the end of the
/// string.
#[verifier::external_body]
pub(crate) fn push_char(s: &mut String, c: char)
    ensures
        final(s)@ == old(s)@.push(c),
{
    s.push(c);
}

/// Collects the characters of a string slice into a vector.
pub(crate) fn chars_of(s: &str) -> (r: Vec<char>)
    ensures
        r@ == s@,
{
    let n: usize = s.unicode_len();
    let mut r: Vec<char> = Vec::new();
    let mut i: usize = 0;
    assert(r@ =~= s@.subrange(0, 0));
    while i < n
        invariant
            i <= n,
            n == s@.len(),
            r@ == s@.subrange(0, i as int),
        decreases n - i,
    {
        r.push(s.get_char(i));
        assert(r@ =~= s@.subrange(0, i + 1));
        i = i + 1;
    }
    assert(r@ =~= s@);
    r
}

/// Compares two string slices character by character.
pub(crate) fn str_eq(a: &str, b: &str) -> (r: bool)
    ensures
        r == (a@ == b@),
{
    let na: usize = a.unicode_len();
    let nb: usize = b.unicode_len();
    if na != nb {
        return false;
    }
    let mut i: usize = 0;
    while i < na
        invariant
            i <= na,
            na == a@.len(),
            na == b@.len(),
            forall|k: int| 0 <= k < i ==> a@[k] == b@[k],
        decreases na - i,
    {
        if a.get_char(i) != b.get_char(i) {
            return false;
        }
        i = i + 1;
    }
    proof {
        assert(a@ =~= b@);
    }
    true
}

/// Whether `c` separates path components.
pub(crate) fn is_sep_char(c: char) -> (r: bool)
    ensures
        r == is_sep(c),
{
    c == '/' || c == '\\'
}

/// Whether `c` may serve as a drive letter.
pub(crate) fn valid_drive_letter(c: char) -> (r: bool)
    ensures
        r == is_ascii_letter(c),
{
    let u: u32 = c as u32;
    (97 <= u && u <= 122) || (65 <= u && u <= 90)
}

/// Upper-cases an ASCII lower-case letter; anything else passes through.
pub(crate) fn ascii_upcase(c: char) -> (r: char)
    ensures
        r == upcase(c),
{
    let u: u32 = c as u32;
    if 97 <= u && u <= 122 {
        ((u - 32) as u8) as char
    } else {
        c
    }
}

/// Appends characters `from..to` of `chars` to `s`.
pub(crate) fn append_range(s: &mut String, chars: &Vec<char>, from: usize, to: usize)
    requires
        from <= to <= chars@.len(),
    ensures
        final(s)@ == old(s)@ + chars@.subrange(from as int, to as int),
{
    let mut k: usize = from;
    assert(s@ =~= s@ + chars@.subrange(from as int, from as int));
    while k < to
        invariant
            from <= k <= to <= chars@.len(),
            s@ == old(s)@ + chars@.subrange(from as int, k as int),
        decreases to - k,
    {
        push_char(s, chars[k]);
        assert(old(s)@ + chars@.subrange(from as int, k as int + 1) =~= (old(s)@
            + chars@.subrange(from as int, k as int)).push(chars@[k as int]));
        k = k + 1;
    }
    assert(s@ =~= old(s)@ + chars@.subrange(from as int, to as int));
}

} // verus!
