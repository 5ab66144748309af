//! Escaping of text into the target markup: one backslash before every
//! character the markup gives a meaning of its own.

use vstd::prelude::*;

use crate::chars::str_chars;
use crate::scanner::char_in_str;

verus! {

/// `s` from position `i` on, with a backslash inserted before every
/// character that occurs in `esc`.
pub open spec fn escaped_from(s: Seq<char>, esc: Seq<char>, i: int) -> Seq<char>
    decreases s.len() - i when 0 <= i <= s.len()
{
    if i >= s.len() {
        Seq::empty()
    } else if esc.contains(s[i]) {
        seq!['\\', s[i]] + escaped_from(s, esc, i + 1)
    } else {
        seq![s[i]] + escaped_from(s, esc, i + 1)
    }
}

/// The characters that must be escaped inside a markup string literal.
pub open spec fn string_esc_set() -> Seq<char> {
    "\\\""@
}

/// The characters that must be escaped in markup content.
pub open spec fn content_esc_set() -> Seq<char> {
    "*_`<>@=-+/$\\'\"~#"@
}

pub open spec fn escape_string_spec(s: Seq<char>) -> Seq<char> {
    escaped_from(s, string_esc_set(), 0)
}

pub open spec fn escape_content_spec(s: Seq<char>) -> Seq<char> {
    escaped_from(s, content_esc_set(), 0)
}

#[verifier::loop_isolation(false)]
fn escape_with(s: &str, esc: &str) -> (r: String)
    ensures
        r@ == escaped_from(s@, esc@, 0),
{
    let v = str_chars(s);
    let n = v.len();
    let mut r = String::new();
    let mut i: usize = 0;
    while i < n
        invariant
            n == s@.len(),
            v@ == s@,
            i <= n,
            escaped_from(s@, esc@, 0) == r@ + escaped_from(s@, esc@, i as int),
        decreases n - i,
    {
        let c = v[i];
        let ghost prev = r@;
        if char_in_str(c, esc) {
            r.push('\\');
            r.push(c);
            assert(prev + escaped_from(s@, esc@, i as int) =~= r@ + escaped_from(
                s@,
                esc@,
                i + 1,
            ));
        } else {
            r.push(c);
            assert(prev + escaped_from(s@, esc@, i as int) =~= r@ + escaped_from(
                s@,
                esc@,
                i + 1,
            ));
        }
        i += 1;
    }
    assert(r@ + escaped_from(s@, esc@, n as int) =~= r@);
    r
}

/// Escapes `s` for use inside a double-quoted markup string: a backslash is
/// inserted before every backslash and double quote.
pub fn escape_string(s: &str) -> (r: String)
    ensures
        r@ == escape_string_spec(s@),
{
    escape_with(s, "\\\"")
}

/// Escapes `s` for use as markup content: a backslash is inserted before
/// every character the markup could read as syntax.
pub fn escape_content(s: &str) -> (r: String)
    ensures
        r@ == escape_content_spec(s@),
{
    escape_with(s, "*_`<>@=-+/$\\'\"~#")
}

} // verus!
