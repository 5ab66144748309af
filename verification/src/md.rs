//! Helpers the surrounding document walker relies on: content-addressed
//! names for attachments, the code-cell header, and the HTML fallback.

use std::fmt::Write as _;
use vstd::prelude::*;

use crate::translate::hex_digit_ch;
use crate::typ::{escape_string, escape_string_spec};
use crate::typ::{escape_content, escape_content_spec};

verus! {

/// A non-negative number written in decimal, no leading zeroes.
pub open spec fn dec_of(n: int) -> Seq<char>
    decreases n when n >= 0
{
    if n < 10 {
        seq![hex_digit_ch(n)]
    } else {
        dec_of(n / 10).push(hex_digit_ch(n % 10))
    }
}

/// A signed number written in decimal: a minus sign, then the magnitude.
pub open spec fn int_dec(n: int) -> Seq<char> {
    if n < 0 {
        seq!['-'] + dec_of(-n)
    } else {
        dec_of(n)
    }
}

fn dec_digit(d: u64) -> (c: char)
    requires
        d < 10,
    ensures
        c == hex_digit_ch(d as int),
{
    if d == 0 {
        '0'
    } else if d == 1 {
        '1'
    } else if d == 2 {
        '2'
    } else if d == 3 {
        '3'
    } else if d == 4 {
        '4'
    } else if d == 5 {
        '5'
    } else if d == 6 {
        '6'
    } else if d == 7 {
        '7'
    } else if d == 8 {
        '8'
    } else {
        '9'
    }
}

fn dec_mag(n: u64) -> (r: String)
    ensures
        r@ == dec_of(n as int),
    decreases n,
{
    if n < 10 {
        let mut r = String::new();
        r.push(dec_digit(n));
        assert(r@ =~= dec_of(n as int));
        r
    } else {
        let mut r = dec_mag(n / 10);
        r.push(dec_digit(n % 10));
        r
    }
}

/// A signed count written in decimal.
fn dec_i64(n: i64) -> (r: String)
    ensures
        r@ == int_dec(n as int),
{
    if n >= 0 {
        dec_mag(n as u64)
    } else {
        let mag: u64 = if n == i64::MIN {
            9223372036854775808u64
        } else {
            (-n) as u64
        };
        assert(mag as int == -(n as int));
        let mut r = String::new();
        r.push('-');
        let m = dec_mag(mag);
        r.append(m.as_str());
        assert(r@ =~= seq!['-'] + dec_of(-(n as int)));
        r
    }
}

/// What the code-cell header looks like: the source escaped into a markup
/// string, then the language and the execution count.
pub open spec fn code_parse_spec(code: Seq<char>, count: int, lang: Seq<char>) -> Seq<char> {
    "#code-block(\""@ + escape_string_spec(code) + "\"\n, lang: \""@ + lang + "\", count: "@
        + int_dec(count) + ")\n"@
}

/// Renders one code cell's header: the escaped source, its language, and
/// its execution count.
pub fn code_parse(code: &str, count: i64, lang: &str) -> (r: String)
    ensures
        r@ == code_parse_spec(code@, count as int, lang@),
{
    let esc = escape_string(code);
    let num = dec_i64(count);
    let mut r = String::from_str("#code-block(\"");
    r.append(esc.as_str());
    r.append("\"\n, lang: \"");
    r.append(lang);
    r.append("\", count: ");
    r.append(num.as_str());
    r.append(")\n");
    assert(r@ =~= code_parse_spec(code@, count as int, lang@));
    r
}

/// The SHA-1 digest of a string's bytes, written as lowercase hex digits.
/// The digest itself is a fixed function of the input, left abstract here.
pub uninterp spec fn sha1_hex_of(s: Seq<char>) -> Seq<char>;

/// Relies on `Sha1` from the `sha1` crate: the digest depends on the input
/// alone, is 20 bytes long, and each byte is written as two hex digits.
#[verifier::external_body]
pub fn sha1(s: &str) -> (r: String)
    ensures
        r@ == sha1_hex_of(s@),
        r@.len() == 40,
{
    let mut h = <sha1::Sha1 as sha1::Digest>::new();
    sha1::Digest::update(&mut h, s.as_bytes());
    let d = sha1::Digest::finalize(h);
    let mut out = String::new();
    for b in d.iter() {
        let _ = write!(out, "{:02x}", b);
    }
    out
}

/// HTML embedded in a document is not translated; it is passed through as
/// escaped markup content.
pub fn html_to_typst(html: &str) -> (r: String)
    ensures
        r@ == escape_content_spec(html@),
{
    escape_content(html)
}

} // verus!
