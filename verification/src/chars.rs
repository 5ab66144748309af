//! Character classes used by the scanner and the translator, and the few
//! string primitives the rest of the crate builds on.

use vstd::prelude::*;

verus! {

/// The Unicode `White_Space` code points, which is what the notation treats
/// as blank between tokens.
pub open spec fn spec_is_ws(c: char) -> bool {
    let u = c as u32;
    u == 9 || u == 10 || u == 11 || u == 12 || u == 13 || u == 32 || u == 133 || u == 160
        || u == 5760 || (8192 <= u && u <= 8202) || u == 8232 || u == 8233 || u == 8239
        || u == 8287 || u == 12288
}

#[verifier::when_used_as_spec(spec_is_ws)]
pub fn is_ws(c: char) -> (b: bool)
    ensures
        b == spec_is_ws(c),
{
    let u = c as u32;
    u == 9 || u == 10 || u == 11 || u == 12 || u == 13 || u == 32 || u == 133 || u == 160
        || u == 5760 || (8192 <= u && u <= 8202) || u == 8232 || u == 8233 || u == 8239
        || u == 8287 || u == 12288
}

/// ASCII letters, the only characters a command word may consist of.
pub open spec fn spec_is_alpha(c: char) -> bool {
    let u = c as u32;
    (97 <= u && u <= 122) || (65 <= u && u <= 90)
}

#[verifier::when_used_as_spec(spec_is_alpha)]
pub fn is_alpha(c: char) -> (b: bool)
    ensures
        b == spec_is_alpha(c),
{
    let u = c as u32;
    (97 <= u && u <= 122) || (65 <= u && u <= 90)
}

pub open spec fn spec_is_digit(c: char) -> bool {
    let u = c as u32;
    48 <= u && u <= 57
}

#[verifier::when_used_as_spec(spec_is_digit)]
pub fn is_digit(c: char) -> (b: bool)
    ensures
        b == spec_is_digit(c),
{
    let u = c as u32;
    48 <= u && u <= 57
}

/// The Unicode `Alphabetic` property; the spacing rule between adjacent
/// output fragments is stated over it.  The property is a large character
/// table, so it is left abstract here and tied to the standard library below.
pub uninterp spec fn unicode_alpha(c: char) -> bool;

/// Relies on `char::is_alphabetic` from the standard library: the result is a
/// fixed property of the character.  The documentation guarantees that ASCII
/// letters are alphabetic and that ASCII digits, punctuation, whitespace and
/// control characters are not.
pub assume_specification[ char::is_alphabetic ](c: char) -> (b: bool)
    ensures
        b == unicode_alpha(c),
        spec_is_alpha(c) ==> b,
        (c as u32) < 128 && !spec_is_alpha(c) ==> !b,
;

/// Relies on `String::push` from the standard library: it appends exactly the
/// given character.
pub assume_specification[ String::push ](s: &mut String, c: char)
    ensures
        final(s)@ == old(s)@.push(c),
;

/// Character-by-character string equality, so the dispatch table can compare
/// a scanned word against a fixed name.
pub fn str_eq(a: &str, b: &str) -> (r: bool)
    ensures
        r == (a@ == b@),
{
    let al = a.unicode_len();
    let bl = b.unicode_len();
    if al != bl {
        assert(a@.len() != b@.len());
        return false;
    }
    let mut i: usize = 0;
    while i < al
        invariant
            al == a@.len(),
            bl == b@.len(),
            al == bl,
            i <= al,
            forall|k: int| 0 <= k < i ==> a@[k] == b@[k],
        decreases al - i,
    {
        if a.get_char(i) != b.get_char(i) {
            return false;
        }
        i += 1;
    }
    assert(a@ =~= b@);
    true
}

/// The characters of a string, in order, as a vector.
pub fn str_chars(s: &str) -> (v: Vec<char>)
    ensures
        v@ == s@,
{
    let n = s.unicode_len();
    let mut v: Vec<char> = Vec::new();
    let mut i: usize = 0;
    while i < n
        invariant
            n == s@.len(),
            i <= n,
            v@ == s@.subrange(0, i as int),
        decreases n - i,
    {
        v.push(s.get_char(i));
        assert(v@ =~= s@.subrange(0, i + 1 as int));
        i += 1;
    }
    assert(v@ =~= s@);
    v
}

} // verus!
