//! A forward-only scanner over a character sequence.
//!
//! Every primitive is specified exactly, as a function from the input
//! sequence and the cursor position to the new position and the text it
//! hands back.

use vstd::prelude::*;

use crate::chars::{is_alpha, is_ws, spec_is_alpha, spec_is_ws, str_chars, str_eq};

verus! {

/// Position after a maximal run of whitespace starting at `i`.
pub open spec fn ws_end(s: Seq<char>, i: int) -> int
    decreases s.len() - i when 0 <= i <= s.len()
{
    if i >= s.len() {
        i
    } else if spec_is_ws(s[i]) {
        ws_end(s, i + 1)
    } else {
        i
    }
}

pub proof fn lemma_ws_end(s: Seq<char>, i: int)
    requires
        0 <= i <= s.len(),
    ensures
        i <= ws_end(s, i) <= s.len(),
        ws_end(s, i) < s.len() ==> !spec_is_ws(s[ws_end(s, i)]),
    decreases s.len() - i,
{
    if i < s.len() && spec_is_ws(s[i]) {
        lemma_ws_end(s, i + 1);
    }
}

/// Position after a maximal run of ASCII letters starting at `i`.
pub open spec fn word_end(s: Seq<char>, i: int) -> int
    decreases s.len() - i when 0 <= i <= s.len()
{
    if i >= s.len() {
        i
    } else if spec_is_alpha(s[i]) {
        word_end(s, i + 1)
    } else {
        i
    }
}

pub proof fn lemma_word_end(s: Seq<char>, i: int)
    requires
        0 <= i <= s.len(),
    ensures
        i <= word_end(s, i) <= s.len(),
    decreases s.len() - i,
{
    if i < s.len() && spec_is_alpha(s[i]) {
        lemma_word_end(s, i + 1);
    }
}

/// What `next_word` hands back from position `i`: the new position and the
/// collected word, with the one hard-coded exception that `operatorname`
/// swallows an immediately following `*`.
pub open spec fn next_word_spec(s: Seq<char>, i: int) -> (int, Seq<char>)
    recommends
        0 <= i <= s.len(),
{
    let e = word_end(s, i);
    let w = s.subrange(i, e);
    if w == "operatorname"@ && e < s.len() && s[e] == '*' {
        (e + 1, w.push('*'))
    } else {
        (e, w)
    }
}

pub proof fn lemma_next_word(s: Seq<char>, i: int)
    requires
        0 <= i <= s.len(),
    ensures
        i <= next_word_spec(s, i).0 <= s.len(),
        next_word_spec(s, i).1.len() <= next_word_spec(s, i).0 - i,
{
    lemma_word_end(s, i);
}

/// Index of the brace that closes a group opened just before `i`, honouring
/// nesting depth; the input's length if the group is never closed.
pub open spec fn brace_end(s: Seq<char>, i: int, depth: int) -> int
    decreases s.len() - i when 0 <= i <= s.len()
{
    if i >= s.len() {
        i
    } else if s[i] == '{' {
        brace_end(s, i + 1, depth + 1)
    } else if s[i] == '}' {
        if depth == 0 {
            i
        } else {
            brace_end(s, i + 1, depth - 1)
        }
    } else {
        brace_end(s, i + 1, depth)
    }
}

pub proof fn lemma_brace_end(s: Seq<char>, i: int, depth: int)
    requires
        0 <= i <= s.len(),
    ensures
        i <= brace_end(s, i, depth) <= s.len(),
    decreases s.len() - i,
{
    if i < s.len() {
        if s[i] == '{' {
            lemma_brace_end(s, i + 1, depth + 1);
        } else if s[i] == '}' {
            if depth != 0 {
                lemma_brace_end(s, i + 1, depth - 1);
            }
        } else {
            lemma_brace_end(s, i + 1, depth);
        }
    }
}

/// What `next_param` hands back from position `i`: the new position and the
/// raw text of one argument, or the error message when the input runs out.
pub open spec fn next_param_spec(s: Seq<char>, i: int) -> Result<(int, Seq<char>), Seq<char>>
    decreases s.len() - i, 1int when 0 <= i <= s.len()
{
    let j = ws_end(s, i);
    if j >= s.len() {
        Err("Unexpected end of input"@)
    } else if s[j] == '\\' {
        let k = next_word_spec(s, j + 1).0;
        let w = next_word_spec(s, j + 1).1;
        if w.len() == 0 {
            if k >= s.len() {
                Err("Expected a character after '\\'"@)
            } else if i < k + 1 && k + 1 <= s.len() {
                np_chain(s, k + 1, seq!['\\', s[k]])
            } else {
                Err(Seq::empty())
            }
        } else {
            if i < k && k <= s.len() {
                np_chain(s, k, seq!['\\'] + w)
            } else {
                Err(Seq::empty())
            }
        }
    } else if s[j] == '{' {
        let e = brace_end(s, j + 1, 0);
        if j + 1 <= e <= s.len() {
            Ok(((if e < s.len() { e + 1 } else { e }), s.subrange(j + 1, e)))
        } else {
            Err(Seq::empty())
        }
    } else {
        Ok((j + 1, seq![s[j]]))
    }
}

/// The greedy chain of trailing `_`/`^` operators that `next_param` folds
/// into the argument it already captured as `acc`.
pub open spec fn np_chain(s: Seq<char>, i: int, acc: Seq<char>) -> Result<
    (int, Seq<char>),
    Seq<char>,
>
    decreases s.len() - i, 2int when 0 <= i <= s.len()
{
    if i >= s.len() {
        Ok((i, acc))
    } else if spec_is_ws(s[i]) {
        np_chain(s, i + 1, acc)
    } else if s[i] == '_' || s[i] == '^' {
        match next_param_spec(s, i + 1) {
            Err(m) => Err(m),
            Ok((j, p)) => if i < j && j <= s.len() {
                np_chain(s, j, acc.push(s[i]) + p)
            } else {
                Err(Seq::empty())
            },
        }
    } else {
        Ok((i, acc))
    }
}

/// After a successful capture the cursor has moved, and the argument is no
/// longer than the text walked over; after a failure the input is exhausted.
pub proof fn lemma_next_param(s: Seq<char>, i: int)
    requires
        0 <= i <= s.len(),
    ensures
        next_param_spec(s, i) matches Ok(r) ==> i < r.0 <= s.len() && r.1.len() <= r.0 - i,
    decreases s.len() - i, 1int,
{
    lemma_ws_end(s, i);
    let j = ws_end(s, i);
    if j < s.len() {
        if s[j] == '\\' {
            lemma_next_word(s, j + 1);
            let k = next_word_spec(s, j + 1).0;
            let w = next_word_spec(s, j + 1).1;
            if w.len() == 0 {
                if k < s.len() {
                    lemma_np_chain(s, k + 1, seq!['\\', s[k]], k + 1 - 2);
                }
            } else {
                assert((seq!['\\'] + w).len() <= k - j);
                lemma_np_chain(s, k, seq!['\\'] + w, j);
            }
        } else if s[j] == '{' {
            lemma_brace_end(s, j + 1, 0);
        }
    }
}

/// Auxiliary to [`lemma_next_param`]: the chain only grows the argument as
/// fast as it advances the cursor.  `base` is a lower bound on where the
/// capture started, with `acc.len() <= i - base`.
pub proof fn lemma_np_chain(s: Seq<char>, i: int, acc: Seq<char>, base: int)
    requires
        0 <= i <= s.len(),
        base < i,
        acc.len() <= i - base,
    ensures
        np_chain(s, i, acc) matches Ok(r) ==> base < r.0 <= s.len() && i <= r.0 && r.1.len()
            <= r.0 - base,
    decreases s.len() - i, 2int,
{
    if i >= s.len() {
    } else if spec_is_ws(s[i]) {
        lemma_np_chain(s, i + 1, acc, base);
    } else if s[i] == '_' || s[i] == '^' {
        lemma_next_param(s, i + 1);
        match next_param_spec(s, i + 1) {
            Err(_) => {},
            Ok((j, p)) => {
                if i < j && j <= s.len() {
                    assert((acc.push(s[i]) + p).len() <= j - base);
                    lemma_np_chain(s, j, acc.push(s[i]) + p, base);
                }
            },
        }
    }
}

/// What `next_param_optional` hands back: the bracketed text if, after
/// whitespace, a `[` is next; otherwise nothing.
pub open spec fn np_optional_spec(s: Seq<char>, i: int) -> (int, Seq<char>)
    recommends
        0 <= i <= s.len(),
{
    let j = ws_end(s, i);
    if j < s.len() && s[j] == '[' {
        let e = stop_at(s, j + 1, "]"@, true);
        ((if e < s.len() { e + 1 } else { e }), s.subrange(j + 1, e))
    } else {
        (j, Seq::empty())
    }
}

/// First position at or after `i` whose character's membership in `cs`
/// equals `stop_in`; the input's length if there is none.
pub open spec fn stop_at(s: Seq<char>, i: int, cs: Seq<char>, stop_in: bool) -> int
    decreases s.len() - i when 0 <= i <= s.len()
{
    if i >= s.len() {
        i
    } else if cs.contains(s[i]) == stop_in {
        i
    } else {
        stop_at(s, i + 1, cs, stop_in)
    }
}

pub proof fn lemma_stop_at(s: Seq<char>, i: int, cs: Seq<char>, stop_in: bool)
    requires
        0 <= i <= s.len(),
    ensures
        i <= stop_at(s, i, cs, stop_in) <= s.len(),
        forall|k: int|
            i <= k < stop_at(s, i, cs, stop_in) ==> cs.contains(#[trigger] s[k]) != stop_in,
    decreases s.len() - i,
{
    if i < s.len() && cs.contains(s[i]) != stop_in {
        lemma_stop_at(s, i + 1, cs, stop_in);
    }
}

/// What `until_chars` hands back: the text before the first character that
/// is in `cs`, that character being consumed but not returned.
pub open spec fn until_chars_spec(s: Seq<char>, i: int, cs: Seq<char>) -> (int, Seq<char>)
    recommends
        0 <= i <= s.len(),
{
    let e = stop_at(s, i, cs, true);
    ((if e < s.len() { e + 1 } else { e }), s.subrange(i, e))
}

/// What `until_chars_not` hands back: the text before the first character
/// that is not in `cs`, that character being consumed but not returned.
pub open spec fn until_chars_not_spec(s: Seq<char>, i: int, cs: Seq<char>) -> (int, Seq<char>)
    recommends
        0 <= i <= s.len(),
{
    let e = stop_at(s, i, cs, false);
    ((if e < s.len() { e + 1 } else { e }), s.subrange(i, e))
}

/// First position `m` at or after `i` such that the text read so far,
/// `s[i..m+1]`, ends with `pat`; the input's length if there is none.
pub open spec fn match_stop(s: Seq<char>, start: int, pat: Seq<char>, m: int) -> int
    decreases s.len() - m when 0 <= m <= s.len()
{
    if m >= s.len() {
        m
    } else if m + 1 - start >= pat.len() && s.subrange(m + 1 - pat.len(), m + 1) == pat {
        m
    } else {
        match_stop(s, start, pat, m + 1)
    }
}

pub proof fn lemma_match_stop(s: Seq<char>, start: int, pat: Seq<char>, m: int)
    requires
        0 <= m <= s.len(),
    ensures
        m <= match_stop(s, start, pat, m) <= s.len(),
        match_stop(s, start, pat, m) < s.len() ==> {
            let r = match_stop(s, start, pat, m);
            r + 1 - start >= pat.len() && s.subrange(r + 1 - pat.len(), r + 1) == pat
        },
    decreases s.len() - m,
{
    if m < s.len() && !(m + 1 - start >= pat.len() && s.subrange(m + 1 - pat.len(), m + 1)
        == pat) {
        lemma_match_stop(s, start, pat, m + 1);
    }
}

/// What `until_string` hands back: the text before the first occurrence of
/// `pat`, the occurrence being consumed but not returned.
pub open spec fn until_string_spec(s: Seq<char>, i: int, pat: Seq<char>) -> (int, Seq<char>)
    recommends
        0 <= i <= s.len(),
{
    let m = match_stop(s, i, pat, i);
    if m < s.len() {
        (m + 1, s.subrange(i, m + 1 - pat.len()))
    } else {
        (m, s.subrange(i, m))
    }
}

pub proof fn lemma_until_string(s: Seq<char>, i: int, pat: Seq<char>)
    requires
        0 <= i <= s.len(),
    ensures
        i <= until_string_spec(s, i, pat).0 <= s.len(),
        until_string_spec(s, i, pat).1.len() <= until_string_spec(s, i, pat).0 - i,
{
    lemma_match_stop(s, i, pat, i);
    let m = match_stop(s, i, pat, i);
    if m < s.len() {
        assert(m + 1 - i >= pat.len() && s.subrange(m + 1 - pat.len(), m + 1) == pat);
    }
}

pub proof fn lemma_until_chars(s: Seq<char>, i: int, cs: Seq<char>)
    requires
        0 <= i <= s.len(),
    ensures
        i <= until_chars_spec(s, i, cs).0 <= s.len(),
        until_chars_spec(s, i, cs).1.len() <= until_chars_spec(s, i, cs).0 - i,
{
    lemma_stop_at(s, i, cs, true);
}

pub proof fn lemma_until_chars_not(s: Seq<char>, i: int, cs: Seq<char>)
    requires
        0 <= i <= s.len(),
    ensures
        i <= until_chars_not_spec(s, i, cs).0 <= s.len(),
        until_chars_not_spec(s, i, cs).1.len() <= until_chars_not_spec(s, i, cs).0 - i,
        forall|k: int|
            0 <= k < until_chars_not_spec(s, i, cs).1.len() ==> cs.contains(
                #[trigger] until_chars_not_spec(s, i, cs).1[k],
            ),
{
    lemma_stop_at(s, i, cs, false);
}

pub proof fn lemma_np_optional(s: Seq<char>, i: int)
    requires
        0 <= i <= s.len(),
    ensures
        i <= np_optional_spec(s, i).0 <= s.len(),
        np_optional_spec(s, i).1.len() <= np_optional_spec(s, i).0 - i,
{
    lemma_ws_end(s, i);
    let j = ws_end(s, i);
    if j < s.len() && s[j] == '[' {
        lemma_stop_at(s, j + 1, "]"@, true);
    }
}

/// The error a scanning primitive reports when a required argument cannot be
/// read: a message, and whatever input was left at the point of failure.
#[derive(Debug)]
pub struct ScannerError {
    message: String,
    characters: String,
}

impl View for ScannerError {
    type V = (Seq<char>, Seq<char>);

    closed spec fn view(&self) -> (Seq<char>, Seq<char>) {
        (self.message@, self.characters@)
    }
}

impl ScannerError {
    /// Builds an error from a message and the scanner at the failure point;
    /// the scanner's unread text becomes the error's context.
    pub fn new(message: String, scanner: Scanner) -> (e: Self)
        ensures
            e@ == (message@, scanner.input().subrange(scanner.at(), scanner.input().len() as int)),
    {
        let characters = scanner.rest();
        ScannerError { message, characters }
    }

    /// The error rendered as one line, `message in remaining-text`.
    pub(crate) fn from_parts(message: String, characters: String) -> (e: Self)
        ensures
            e@ == (message@, characters@),
    {
        ScannerError { message, characters }
    }

    pub fn describe(&self) -> (r: String)
        ensures
            r@ == self@.0 + " in "@ + self@.1,
    {
        let mut r = self.message.clone();
        r.append(" in ");
        r.append(self.characters.as_str());
        r
    }
}

/// A forward-only cursor over the characters of one input string.
pub struct Scanner {
    chars: Vec<char>,
    pos: usize,
}

impl Scanner {
    /// The character sequence being scanned.
    pub closed spec fn input(&self) -> Seq<char> {
        self.chars@
    }

    /// The cursor: how many characters have been consumed.
    pub closed spec fn at(&self) -> int {
        self.pos as int
    }

    #[verifier::type_invariant]
    spec fn type_inv(&self) -> bool {
        self.pos <= self.chars@.len()
    }

    pub fn new(text: &str) -> (s: Self)
        ensures
            s.input() == text@,
            s.at() == 0,
    {
        Scanner { chars: str_chars(text), pos: 0 }
    }

    /// The character at the cursor, without advancing.
    pub fn peek(&self) -> (r: Option<char>)
        ensures
            r == (if self.at() < self.input().len() {
                Some(self.input()[self.at()])
            } else {
                None::<char>
            }),
    {
        proof {
            use_type_invariant(self);
        }
        if self.pos < self.chars.len() {
            Some(self.chars[self.pos])
        } else {
            None
        }
    }

    /// Consumes and returns the character at the cursor.
    pub fn next(&mut self) -> (r: Option<char>)
        ensures
            final(self).input() == old(self).input(),
            r == (if old(self).at() < old(self).input().len() {
                Some(old(self).input()[old(self).at()])
            } else {
                None::<char>
            }),
            final(self).at() == (if old(self).at() < old(self).input().len() {
                old(self).at() + 1
            } else {
                old(self).at()
            }),
    {
        proof {
            use_type_invariant(&*self);
        }
        if self.pos < self.chars.len() {
            let c = self.chars[self.pos];
            self.pos = self.pos + 1;
            Some(c)
        } else {
            None
        }
    }

    /// The unread remainder of the input, as a string.
    pub fn rest(&self) -> (r: String)
        ensures
            r@ == self.input().subrange(self.at(), self.input().len() as int),
    {
        proof {
            use_type_invariant(self);
        }
        chars_string_range(&self.chars, self.pos, self.chars.len())
    }

    /// Consumes and returns a maximal run of ASCII letters; `operatorname`
    /// additionally swallows an immediately following `*`.
    #[verifier::loop_isolation(false)]
    pub fn next_word(&mut self) -> (w: String)
        ensures
            final(self).input() == old(self).input(),
            final(self).at() == next_word_spec(old(self).input(), old(self).at()).0,
            w@ == next_word_spec(old(self).input(), old(self).at()).1,
    {
        proof {
            use_type_invariant(&*self);
        }
        let ghost s = self.chars@;
        let ghost i0 = self.pos as int;
        let mut w = String::new();
        while self.pos < self.chars.len() && is_alpha(self.chars[self.pos])
            invariant
                self.chars@ == s,
                i0 <= self.pos <= s.len(),
                word_end(s, i0) == word_end(s, self.pos as int),
                w@ == s.subrange(i0, self.pos as int),
            decreases s.len() - self.pos,
        {
            w.push(self.chars[self.pos]);
            assert(w@ =~= s.subrange(i0, self.pos + 1));
            self.pos = self.pos + 1;
        }
        assert(word_end(s, self.pos as int) == self.pos as int);
        if str_eq(w.as_str(), "operatorname") {
            if self.pos < self.chars.len() && self.chars[self.pos] == '*' {
                w.push('*');
                self.pos = self.pos + 1;
            }
        }
        w
    }

    /// Consumes and returns one argument: after whitespace, either a
    /// backslash command (with any trailing `_`/`^` chain folded in), a
    /// balanced brace group, or a single character.  Fails when the input
    /// runs out before an argument can be read.
    #[verifier::loop_isolation(false)]
    pub fn next_param(&mut self) -> (r: Result<String, ScannerError>)
        ensures
            final(self).input() == old(self).input(),
            match r {
                Ok(p) => next_param_spec(old(self).input(), old(self).at()) == Ok::<_, Seq<char>>(
                    (final(self).at(), p@),
                ),
                Err(e) => next_param_spec(old(self).input(), old(self).at()) == Err::<
                    (int, Seq<char>),
                    _,
                >(e@.0) && e@.1 == Seq::<char>::empty()
                    && final(self).at() == old(self).input().len(),
            },
        decreases old(self).input().len() - old(self).at(),
    {
        proof {
            use_type_invariant(&*self);
        }
        let ghost s = self.chars@;
        let ghost i0 = self.pos as int;
        // trim whitespace
        while self.pos < self.chars.len() && is_ws(self.chars[self.pos])
            invariant
                self.chars@ == s,
                i0 <= self.pos <= s.len(),
                ws_end(s, i0) == ws_end(s, self.pos as int),
            decreases s.len() - self.pos,
        {
            self.pos = self.pos + 1;
        }
        assert(ws_end(s, self.pos as int) == self.pos as int);
        if self.pos >= self.chars.len() {
            return Err(ScannerError { message: msg_unexpected_end(), characters: String::new() });
        }
        let c = self.chars[self.pos];
        if c == '\\' {
            let ghost j = self.pos as int;
            self.pos = self.pos + 1;
            let mut ret = String::new();
            ret.push('\\');
            proof {
                lemma_next_word(s, j + 1);
            }
            let w = self.next_word();
            let ghost k = self.pos as int;
            if w.as_str().unicode_len() == 0 {
                if self.pos >= self.chars.len() {
                    return Err(ScannerError {
                        message: msg_expected_after_backslash(),
                        characters: String::new(),
                    });
                }
                ret.push(self.chars[self.pos]);
                self.pos = self.pos + 1;
                assert(ret@ =~= seq!['\\', s[k]]);
            } else {
                ret.append(w.as_str());
                assert(ret@ =~= seq!['\\'] + w@);
            }
            // fold in trailing binary operators
            let ghost acc0 = ret@;
            let ghost chain0 = self.pos as int;
            let mut done = false;
            while !done
                invariant
                    self.chars@ == s,
                    chain0 <= self.pos <= s.len(),
                    i0 < self.pos,
                    np_chain(s, chain0, acc0) == np_chain(s, self.pos as int, ret@),
                    done ==> np_chain(s, self.pos as int, ret@) == Ok::<_, Seq<char>>(
                        (self.pos as int, ret@),
                    ),
                decreases s.len() - self.pos + (if done {
                    0int
                } else {
                    1int
                }),
            {
                if self.pos >= self.chars.len() {
                    done = true;
                } else {
                    let c2 = self.chars[self.pos];
                    if is_ws(c2) {
                        self.pos = self.pos + 1;
                    } else if c2 == '_' || c2 == '^' {
                        self.pos = self.pos + 1;
                        let ghost before = self.pos as int;
                        let ghost racc = ret@.push(c2);
                        ret.push(c2);
                        proof {
                            lemma_next_param(s, before);
                        }
                        match self.next_param() {
                            Ok(p) => {
                                ret.append(p.as_str());
                                assert(ret@ =~= racc + p@);
                            },
                            Err(e) => {
                                return Err(e);
                            },
                        }
                    } else {
                        done = true;
                    }
                }
            }
            Ok(ret)
        } else if c == '{' {
            self.pos = self.pos + 1;
            let ghost g0 = self.pos as int;
            let mut ret = String::new();
            let mut depth: usize = 0;
            let mut done = false;
            while !done
                invariant
                    self.chars@ == s,
                    g0 <= self.pos <= s.len(),
                    depth <= self.pos - g0,
                    brace_end(s, g0, 0) == brace_end(s, self.pos as int, depth as int),
                    ret@ == s.subrange(g0, self.pos as int),
                    done ==> brace_end(s, g0, 0) == self.pos as int,
                decreases s.len() - self.pos + (if done {
                    0int
                } else {
                    1int
                }),
            {
                if self.pos >= self.chars.len() {
                    done = true;
                } else {
                    let c2 = self.chars[self.pos];
                    if c2 == '{' {
                        depth = depth + 1;
                        ret.push(c2);
                        assert(ret@ =~= s.subrange(g0, self.pos + 1));
                        self.pos = self.pos + 1;
                    } else if c2 == '}' {
                        if depth == 0 {
                            done = true;
                        } else {
                            depth = depth - 1;
                            ret.push(c2);
                            assert(ret@ =~= s.subrange(g0, self.pos + 1));
                            self.pos = self.pos + 1;
                        }
                    } else {
                        ret.push(c2);
                        assert(ret@ =~= s.subrange(g0, self.pos + 1));
                        self.pos = self.pos + 1;
                    }
                }
            }
            if self.pos < self.chars.len() {
                self.pos = self.pos + 1;
            }
            Ok(ret)
        } else {
            self.pos = self.pos + 1;
            let mut ret = String::new();
            ret.push(c);
            assert(ret@ =~= seq![c]);
            Ok(ret)
        }
    }

    /// Consumes and returns an optional bracketed argument; hands back the
    /// empty string when, after whitespace, no `[` is next.
    #[verifier::loop_isolation(false)]
    pub fn next_param_optional(&mut self) -> (r: String)
        ensures
            final(self).input() == old(self).input(),
            final(self).at() == np_optional_spec(old(self).input(), old(self).at()).0,
            r@ == np_optional_spec(old(self).input(), old(self).at()).1,
    {
        proof {
            use_type_invariant(&*self);
        }
        let ghost s = self.chars@;
        let ghost i0 = self.pos as int;
        while self.pos < self.chars.len() && is_ws(self.chars[self.pos])
            invariant
                self.chars@ == s,
                i0 <= self.pos <= s.len(),
                ws_end(s, i0) == ws_end(s, self.pos as int),
            decreases s.len() - self.pos,
        {
            self.pos = self.pos + 1;
        }
        assert(ws_end(s, self.pos as int) == self.pos as int);
        if self.pos < self.chars.len() && self.chars[self.pos] == '[' {
            self.pos = self.pos + 1;
            let ghost g0 = self.pos as int;
            let mut ret = String::new();
            while self.pos < self.chars.len() && !char_in_str(self.chars[self.pos], "]")
                invariant
                    self.chars@ == s,
                    g0 <= self.pos <= s.len(),
                    stop_at(s, g0, "]"@, true) == stop_at(s, self.pos as int, "]"@, true),
                    ret@ == s.subrange(g0, self.pos as int),
                decreases s.len() - self.pos,
            {
                ret.push(self.chars[self.pos]);
                assert(ret@ =~= s.subrange(g0, self.pos + 1));
                self.pos = self.pos + 1;
            }
            assert(stop_at(s, self.pos as int, "]"@, true) == self.pos as int);
            if self.pos < self.chars.len() {
                self.pos = self.pos + 1;
            }
            ret
        } else {
            String::new()
        }
    }

    /// Consumes and returns the text before the first character that is in
    /// `cs`; that character is consumed but not returned.
    pub fn until_chars(&mut self, cs: &str) -> (r: String)
        ensures
            final(self).input() == old(self).input(),
            final(self).at() == until_chars_spec(old(self).input(), old(self).at(), cs@).0,
            r@ == until_chars_spec(old(self).input(), old(self).at(), cs@).1,
    {
        self.until_impl(cs, true)
    }

    /// Consumes and returns the text before the first character that is not
    /// in `cs`; that character is consumed but not returned.
    pub fn until_chars_not(&mut self, cs: &str) -> (r: String)
        ensures
            final(self).input() == old(self).input(),
            final(self).at() == until_chars_not_spec(old(self).input(), old(self).at(), cs@).0,
            r@ == until_chars_not_spec(old(self).input(), old(self).at(), cs@).1,
    {
        self.until_impl(cs, false)
    }

    #[verifier::loop_isolation(false)]
    fn until_impl(&mut self, cs: &str, stop_in: bool) -> (r: String)
        ensures
            final(self).input() == old(self).input(),
            final(self).at() == (if stop_in {
                until_chars_spec(old(self).input(), old(self).at(), cs@).0
            } else {
                until_chars_not_spec(old(self).input(), old(self).at(), cs@).0
            }),
            r@ == (if stop_in {
                until_chars_spec(old(self).input(), old(self).at(), cs@).1
            } else {
                until_chars_not_spec(old(self).input(), old(self).at(), cs@).1
            }),
    {
        proof {
            use_type_invariant(&*self);
        }
        let ghost s = self.chars@;
        let ghost i0 = self.pos as int;
        let mut ret = String::new();
        while self.pos < self.chars.len() && char_in_str(self.chars[self.pos], cs) != stop_in
            invariant
                self.chars@ == s,
                i0 <= self.pos <= s.len(),
                stop_at(s, i0, cs@, stop_in) == stop_at(s, self.pos as int, cs@, stop_in),
                ret@ == s.subrange(i0, self.pos as int),
            decreases s.len() - self.pos,
        {
            ret.push(self.chars[self.pos]);
            assert(ret@ =~= s.subrange(i0, self.pos + 1));
            self.pos = self.pos + 1;
        }
        assert(stop_at(s, self.pos as int, cs@, stop_in) == self.pos as int);
        if self.pos < self.chars.len() {
            self.pos = self.pos + 1;
        }
        ret
    }

    /// Consumes and returns the text before the first occurrence of `pat`;
    /// the occurrence itself is consumed but not returned.
    #[verifier::loop_isolation(false)]
    pub fn until_string(&mut self, pat: &str) -> (r: String)
        ensures
            final(self).input() == old(self).input(),
            final(self).at() == until_string_spec(old(self).input(), old(self).at(), pat@).0,
            r@ == until_string_spec(old(self).input(), old(self).at(), pat@).1,
    {
        proof {
            use_type_invariant(&*self);
        }
        let ghost s = self.chars@;
        let start = self.pos;
        let p: Vec<char> = str_chars(pat);
        let mut m = self.pos;
        let mut done = false;
        while !done
            invariant
                p@ == pat@,
                start <= m <= s.len(),
                match_stop(s, start as int, pat@, start as int) == match_stop(
                    s,
                    start as int,
                    pat@,
                    m as int,
                ),
                done ==> match_stop(s, start as int, pat@, m as int) == m as int,
                done ==> (m < s.len() ==> m + 1 - start >= pat@.len()),
            decreases s.len() - m + (if done {
                0int
            } else {
                1int
            }),
        {
            if m >= self.chars.len() {
                done = true;
            } else if m + 1 >= p.len() && m + 1 - start >= p.len() && chars_match_at(
                &self.chars,
                m + 1 - p.len(),
                &p,
            ) {
                assert(match_stop(s, start as int, pat@, m as int) == m as int);
                done = true;
            } else {
                assert(match_stop(s, start as int, pat@, m as int) == match_stop(
                    s,
                    start as int,
                    pat@,
                    m + 1,
                ));
                m = m + 1;
            }
        }
        if m < self.chars.len() {
            let cut = m + 1 - p.len();
            let ret = chars_string_range(&self.chars, start, cut);
            self.pos = m + 1;
            ret
        } else {
            let ret = chars_string_range(&self.chars, start, m);
            self.pos = m;
            ret
        }
    }
}

/// The characters `v[a..b]`, as a string.
pub fn chars_string_range(v: &Vec<char>, a: usize, b: usize) -> (r: String)
    requires
        a <= b <= v@.len(),
    ensures
        r@ == v@.subrange(a as int, b as int),
{
    let mut r = String::new();
    let mut i = a;
    while i < b
        invariant
            a <= i <= b <= v@.len(),
            r@ == v@.subrange(a as int, i as int),
        decreases b - i,
    {
        r.push(v[i]);
        assert(r@ =~= v@.subrange(a as int, i + 1));
        i += 1;
    }
    r
}

/// Whether `v[at..at+p.len()]` equals `p`.
fn chars_match_at(v: &Vec<char>, at: usize, p: &Vec<char>) -> (b: bool)
    requires
        at + p@.len() <= v@.len(),
    ensures
        b == (v@.subrange(at as int, at + p@.len()) == p@),
{
    let n = p.len();
    let vl = v.len();
    let mut i: usize = 0;
    while i < n
        invariant
            n == p@.len(),
            vl == v@.len(),
            at + n <= vl,
            i <= n,
            forall|k: int| 0 <= k < i ==> v@[at + k] == p@[k],
        decreases n - i,
    {
        if v[at + i] != p[i] {
            assert(v@.subrange(at as int, at + p@.len())[i as int] != p@[i as int]);
            return false;
        }
        i += 1;
    }
    assert(v@.subrange(at as int, at + p@.len()) =~= p@);
    true
}

/// Whether `c` occurs in `cs`.
pub(crate) fn char_in_str(c: char, cs: &str) -> (b: bool)
    ensures
        b == cs@.contains(c),
{
    let n = cs.unicode_len();
    let mut i: usize = 0;
    while i < n
        invariant
            n == cs@.len(),
            i <= n,
            forall|k: int| 0 <= k < i ==> cs@[k] != c,
        decreases n - i,
    {
        if cs.get_char(i) == c {
            return true;
        }
        i += 1;
    }
    false
}

fn msg_unexpected_end() -> (r: String)
    ensures
        r@ == "Unexpected end of input"@,
{
    String::from_str("Unexpected end of input")
}

fn msg_expected_after_backslash() -> (r: String)
    ensures
        r@ == "Expected a character after '\\'"@,
{
    String::from_str("Expected a character after '\\'")
}

} // verus!
