//! The translator: math mode, text mode, and the environment grid.
//!
//! The whole translation is defined once as a family of spec functions over
//! character sequences; the executable functions are proved to return
//! exactly what the spec functions say.  An error is a pair: the message,
//! and the input left unread at the failure point.

use vstd::prelude::*;

use crate::chars::{is_digit, spec_is_digit, str_chars, str_eq, unicode_alpha};
use crate::scanner::{
    chars_string_range, lemma_next_param, lemma_next_word, lemma_np_optional, lemma_until_chars,
    lemma_until_chars_not, lemma_until_string, next_param_spec, next_word_spec, np_optional_spec,
    until_chars_not_spec, until_chars_spec, until_string_spec, Scanner, ScannerError,
};
use crate::table::{
    accent_entry, accent_entry_spec, double_entry, double_entry_spec, literal_entry,
    literal_entry_spec, single_entry, single_entry_spec, text_entry, text_entry_spec,
};
use crate::typ::{escape_string, escape_string_spec};

verus! {

/// A translation failure: the message and the unread input at that point.
pub type TransErr = (Seq<char>, Seq<char>);

/// One step's outcome: the position after the consumed token and the
/// fragment it produced.
pub type StepRes = Result<(int, Seq<char>), TransErr>;

// ---------------------------------------------------------------------------
// small spec helpers
// ---------------------------------------------------------------------------

/// The spacing rule: a single space is inserted between fragments when the
/// last character so far is alphabetic and the next fragment opens with an
/// alphabetic character or an ASCII digit.
pub open spec fn smash(acc: Seq<char>, frag: Seq<char>) -> Seq<char> {
    if acc.len() > 0 && frag.len() > 0 && unicode_alpha(acc.last()) && (unicode_alpha(frag.first())
        || spec_is_digit(frag.first())) {
        acc + seq![' '] + frag
    } else {
        acc + frag
    }
}

/// A colour argument: a `#RRGGBB` literal becomes an `rgb` constructor
/// call, a named colour is passed through unchanged.
pub open spec fn color_spec(s: Seq<char>) -> Seq<char> {
    if s.len() > 0 && s[0] == '#' {
        "rgb(\""@ + s + "\")"@
    } else {
        s
    }
}

/// Every `|` replaced by `mid(|)`.
pub open spec fn replace_bars(s: Seq<char>) -> Seq<char>
    decreases s.len(),
{
    if s.len() == 0 {
        s
    } else if s.first() == '|' {
        "mid(|)"@ + replace_bars(s.drop_first())
    } else {
        seq![s.first()] + replace_bars(s.drop_first())
    }
}

/// First position at or after `i` holding `c`; the length if there is none.
pub open spec fn find_ch(s: Seq<char>, i: int, c: char) -> int
    decreases s.len() - i when 0 <= i <= s.len()
{
    if i >= s.len() {
        i
    } else if s[i] == c {
        i
    } else {
        find_ch(s, i + 1, c)
    }
}

pub proof fn lemma_find_ch(s: Seq<char>, i: int, c: char)
    requires
        0 <= i <= s.len(),
    ensures
        i <= find_ch(s, i, c) <= s.len(),
    decreases s.len() - i,
{
    if i < s.len() && s[i] != c {
        lemma_find_ch(s, i + 1, c);
    }
}

/// The length of a row separator starting at `j`: 2 for a double
/// backslash, 3 for a backslash-`cr`, 0 when there is none.
pub open spec fn row_sep_at(s: Seq<char>, j: int) -> int {
    if 0 <= j && j + 2 <= s.len() && s[j] == '\\' && s[j + 1] == '\\' {
        2
    } else if 0 <= j && j + 3 <= s.len() && s[j] == '\\' && s[j + 1] == 'c' && s[j + 2] == 'r' {
        3
    } else {
        0
    }
}

/// First position at or after `i` where a row separator starts.
pub open spec fn row_stop(s: Seq<char>, i: int) -> int
    decreases s.len() - i when 0 <= i <= s.len()
{
    if i >= s.len() {
        i
    } else if row_sep_at(s, i) != 0 {
        i
    } else {
        row_stop(s, i + 1)
    }
}

pub proof fn lemma_row_stop(s: Seq<char>, i: int)
    requires
        0 <= i <= s.len(),
    ensures
        i <= row_stop(s, i) <= s.len(),
    decreases s.len() - i,
{
    if i < s.len() && row_sep_at(s, i) == 0 {
        lemma_row_stop(s, i + 1);
    }
}

/// An environment body split into rows at every double backslash or
/// backslash-`cr`.
pub open spec fn split_rows(s: Seq<char>) -> Seq<Seq<char>>
    decreases s.len(),
{
    let j = row_stop(s, 0);
    let k = row_sep_at(s, j);
    if 0 <= j && j + k <= s.len() && k >= 2 {
        seq![s.subrange(0, j)] + split_rows(s.subrange(j + k, s.len() as int))
    } else {
        seq![s]
    }
}

/// A row split into cells at every ampersand.
pub open spec fn split_amp(s: Seq<char>) -> Seq<Seq<char>>
    decreases s.len(),
{
    let j = find_ch(s, 0, '&');
    if 0 <= j && j < s.len() {
        seq![s.subrange(0, j)] + split_amp(s.subrange(j + 1, s.len() as int))
    } else {
        seq![s]
    }
}

/// A case body split into branches at every double backslash only.
pub open spec fn split_cases(s: Seq<char>) -> Seq<Seq<char>>
    decreases s.len(),
{
    let j = find2(s, 0);
    if 0 <= j && j + 2 <= s.len() {
        seq![s.subrange(0, j)] + split_cases(s.subrange(j + 2, s.len() as int))
    } else {
        seq![s]
    }
}

/// First position at or after `i` where a double backslash starts.
pub open spec fn find2(s: Seq<char>, i: int) -> int
    decreases s.len() - i when 0 <= i <= s.len()
{
    if i + 2 > s.len() {
        s.len() as int
    } else if s[i] == '\\' && s[i + 1] == '\\' {
        i
    } else {
        find2(s, i + 1)
    }
}

pub proof fn lemma_find2(s: Seq<char>, i: int)
    requires
        0 <= i <= s.len(),
    ensures
        i <= find2(s, i) <= s.len(),
    decreases s.len() - i,
{
    if i + 2 <= s.len() && !(s[i] == '\\' && s[i + 1] == '\\') {
        lemma_find2(s, i + 1);
    }
}

/// The walk over a cell list that repairs an escaped ampersand: a cell
/// ending in a backslash is joined with the next cell, the ampersand put
/// back between them, and the walk moves on past the joined cell.
pub open spec fn merge_cells(cells: Seq<Seq<char>>) -> Seq<Seq<char>>
    decreases cells.len(),
{
    if cells.len() == 0 {
        cells
    } else if cells[0].len() > 0 && cells[0].last() == '\\' && cells.len() >= 2 {
        seq![cells[0] + seq!['&'] + cells[1]] + merge_cells(
            cells.subrange(2, cells.len() as int),
        )
    } else {
        seq![cells[0]] + merge_cells(cells.drop_first())
    }
}

pub open spec fn sum_len(cells: Seq<Seq<char>>) -> int
    decreases cells.len(),
{
    if cells.len() == 0 {
        0
    } else {
        cells[0].len() + sum_len(cells.drop_first())
    }
}

/// Every piece a row split produces is at most as long as the row, with
/// one character of the row given up for each separator.
pub proof fn lemma_split_amp_sum(s: Seq<char>)
    ensures
        split_amp(s).len() >= 1,
        sum_len(split_amp(s)) + split_amp(s).len() - 1 == s.len(),
    decreases s.len(),
{
    lemma_find_ch(s, 0, '&');
    let j = find_ch(s, 0, '&');
    if 0 <= j && j < s.len() {
        let rest = s.subrange(j + 1, s.len() as int);
        lemma_split_amp_sum(rest);
        let whole = seq![s.subrange(0, j)] + split_amp(rest);
        assert(split_amp(s) == whole);
        assert(whole.drop_first() =~= split_amp(rest));
        assert(whole[0] == s.subrange(0, j));
        assert(sum_len(whole) == whole[0].len() + sum_len(whole.drop_first()));
    } else {
        let whole = seq![s];
        assert(split_amp(s) == whole);
        assert(whole.drop_first() =~= Seq::<Seq<char>>::empty());
        assert(sum_len(whole) == whole[0].len() + sum_len(whole.drop_first()));
    }
}

pub proof fn lemma_sum_len_nonneg(cells: Seq<Seq<char>>)
    ensures
        sum_len(cells) >= 0,
    decreases cells.len(),
{
    if cells.len() > 0 {
        lemma_sum_len_nonneg(cells.drop_first());
    }
}

/// After the repair walk, no cell is longer than the pieces it joined plus
/// the separators put back between them.
pub proof fn lemma_merge_cells_bound(cells: Seq<Seq<char>>, bound: int)
    requires
        cells.len() >= 1,
        sum_len(cells) + cells.len() - 1 <= bound,
    ensures
        forall|t: int|
            0 <= t < merge_cells(cells).len() ==> #[trigger] merge_cells(cells)[t].len() <= bound,
    decreases cells.len(),
{
    lemma_sum_len_nonneg(cells.drop_first());
    if cells[0].len() > 0 && cells[0].last() == '\\' && cells.len() >= 2 {
        let rest = cells.subrange(2, cells.len() as int);
        lemma_sum_len_nonneg(rest);
        assert(cells.drop_first().drop_first() =~= rest);
        assert(sum_len(cells.drop_first()) == cells.drop_first()[0].len() + sum_len(
            cells.drop_first().drop_first(),
        ));
        assert(sum_len(cells) == cells[0].len() + cells[1].len() + sum_len(rest));
        let merged = cells[0] + seq!['&'] + cells[1];
        let whole = seq![merged] + merge_cells(rest);
        assert(merge_cells(cells) == whole);
        if rest.len() >= 1 {
            lemma_merge_cells_bound(rest, bound);
        }
        assert forall|t: int| 0 <= t < whole.len() implies #[trigger] whole[t].len()
            <= bound by {
            if t == 0 {
                assert(whole[0] == merged);
            } else {
                assert(whole[t] == merge_cells(rest)[t - 1]);
            }
        }
    } else {
        let whole = seq![cells[0]] + merge_cells(cells.drop_first());
        assert(merge_cells(cells) == whole);
        assert(sum_len(cells) == cells[0].len() + sum_len(cells.drop_first()));
        if cells.drop_first().len() >= 1 {
            lemma_merge_cells_bound(cells.drop_first(), bound);
        }
        assert forall|t: int| 0 <= t < whole.len() implies #[trigger] whole[t].len()
            <= bound by {
            if t == 0 {
                assert(whole[0] == cells[0]);
            } else {
                assert(whole[t] == merge_cells(cells.drop_first())[t - 1]);
            }
        }
    }
}

/// Each row the body split produces is at most as long as the body.
pub proof fn lemma_split_rows_bound(s: Seq<char>)
    ensures
        split_rows(s).len() >= 1,
        forall|t: int|
            0 <= t < split_rows(s).len() ==> #[trigger] split_rows(s)[t].len() <= s.len(),
    decreases s.len(),
{
    lemma_row_stop(s, 0);
    let j = row_stop(s, 0);
    let k = row_sep_at(s, j);
    if 0 <= j && j + k <= s.len() && k >= 2 {
        lemma_split_rows_bound(s.subrange(j + k, s.len() as int));
    }
}

/// Each branch a case split produces is at most as long as the body.
pub proof fn lemma_split_cases_bound(s: Seq<char>)
    ensures
        split_cases(s).len() >= 1,
        forall|t: int|
            0 <= t < split_cases(s).len() ==> #[trigger] split_cases(s)[t].len() <= s.len(),
    decreases s.len(),
{
    lemma_find2(s, 0);
    let j = find2(s, 0);
    if 0 <= j && j + 2 <= s.len() {
        lemma_split_cases_bound(s.subrange(j + 2, s.len() as int));
    }
}

// ---------------------------------------------------------------------------
// numerals
// ---------------------------------------------------------------------------

pub open spec fn digit_val(c: char) -> int {
    (c as int) - 48
}

/// The value of a digit string read in the given base, most significant
/// digit first.
pub open spec fn num_val(s: Seq<char>, base: int) -> int
    decreases s.len(),
{
    if s.len() == 0 {
        0
    } else {
        num_val(s.drop_last(), base) * base + digit_val(s.last())
    }
}

pub open spec fn hex_digit_ch(d: int) -> char {
    if d == 0 {
        '0'
    } else if d == 1 {
        '1'
    } else if d == 2 {
        '2'
    } else if d == 3 {
        '3'
    } else if d == 4 {
        '4'
    } else if d == 5 {
        '5'
    } else if d == 6 {
        '6'
    } else if d == 7 {
        '7'
    } else if d == 8 {
        '8'
    } else if d == 9 {
        '9'
    } else if d == 10 {
        'a'
    } else if d == 11 {
        'b'
    } else if d == 12 {
        'c'
    } else if d == 13 {
        'd'
    } else if d == 14 {
        'e'
    } else {
        'f'
    }
}

/// A number written in lowercase hex, no leading zeroes.
pub open spec fn hex_of(n: int) -> Seq<char>
    decreases n when n >= 0
{
    if n < 16 {
        seq![hex_digit_ch(n)]
    } else {
        hex_of(n / 16).push(hex_digit_ch(n % 16))
    }
}

// ---------------------------------------------------------------------------
// the translation itself
// ---------------------------------------------------------------------------

/// Math-mode translation of a whole input.
pub open spec fn lt_spec(s: Seq<char>) -> Result<Seq<char>, TransErr>
    decreases s.len(), 3int, 0int, 0int,
{
    lt_loop(s, 0, Seq::empty())
}

/// The accumulating scan: translate the token at `i`, splice its fragment
/// onto `acc` under the spacing rule, continue.
pub open spec fn lt_loop(s: Seq<char>, i: int, acc: Seq<char>) -> Result<Seq<char>, TransErr>
    decreases s.len(), 2int, s.len() - i, 0int when 0 <= i <= s.len()
{
    if i >= s.len() {
        Ok(acc)
    } else {
        match math_step(s, i) {
            Err(e) => Err(e),
            Ok((j, frag)) => if i < j && j <= s.len() {
                lt_loop(s, j, smash(acc, frag))
            } else {
                Err((Seq::empty(), Seq::empty()))
            },
        }
    }
}

/// Text-mode translation of a whole input.
pub open spec fn text_spec(s: Seq<char>) -> Result<Seq<char>, TransErr>
    decreases s.len(), 3int, 0int, 1int,
{
    text_loop(s, 0, Seq::empty())
}

/// The text-mode scan: a parallel, smaller command table; a dollar sign
/// re-enters math mode up to the next dollar sign; no spacing rule.
pub open spec fn text_loop(s: Seq<char>, i: int, acc: Seq<char>) -> Result<Seq<char>, TransErr>
    decreases s.len(), 2int, s.len() - i, 1int when 0 <= i <= s.len()
{
    if i >= s.len() {
        Ok(acc)
    } else if s[i] == '\\' {
        let k = next_word_spec(s, i + 1).0;
        let w = next_word_spec(s, i + 1).1;
        if i < k && k <= s.len() {
            if text_entry_spec(w) is Some {
                text_loop(s, k, acc + text_entry_spec(w)->Some_0)
            } else if w.len() == 0 {
                text_loop(s, k, acc)
            } else {
                Err(("Unknown command in text mode"@, s.subrange(k, s.len() as int)))
            }
        } else {
            Err((Seq::empty(), Seq::empty()))
        }
    } else if s[i] == '$' {
        let j = until_chars_spec(s, i + 1, "$"@).0;
        let math = until_chars_spec(s, i + 1, "$"@).1;
        if i < j && j <= s.len() && math.len() < s.len() {
            match lt_spec(math) {
                Err(ep) => Err(ep),
                Ok(t) => text_loop(s, j, acc + "$"@ + t + "$"@),
            }
        } else {
            Err((Seq::empty(), Seq::empty()))
        }
    } else {
        text_loop(s, i + 1, acc.push(s[i]))
    }
}

/// One math-mode token, starting at the character at `i`.
pub open spec fn math_step(s: Seq<char>, i: int) -> StepRes
    decreases s.len(), 1int, s.len() - i, 9int when 0 <= i < s.len()
{
    let c = s[i];
    if c == '\\' {
        let k = next_word_spec(s, i + 1).0;
        let w = next_word_spec(s, i + 1).1;
        if i < k && k <= s.len() {
            if w.len() == 0 {
                if k >= s.len() {
                    Err(("Unexpected end of input"@, Seq::empty()))
                } else {
                    let c2 = s[k];
                    if c2 == '\'' {
                        single_frag(s, k + 1, "acute"@, None)
                    } else if c2 == '"' {
                        single_frag(s, k + 1, "dot.double"@, None)
                    } else if c2 == '.' {
                        single_frag(s, k + 1, "dot"@, None)
                    } else if c2 == '`' {
                        single_frag(s, k + 1, "grave"@, None)
                    } else if c2 == '=' {
                        single_frag(s, k + 1, "macron"@, None)
                    } else if c2 == '~' {
                        single_frag(s, k + 1, "tilde"@, None)
                    } else if c2 == '^' {
                        single_frag(s, k + 1, "hat"@, None)
                    } else if c2 == '_' || c2 == '&' || c2 == '#' {
                        Ok((k + 1, seq!['\\', c2]))
                    } else if c2 == '!' {
                        Ok((k + 1, "#h(-1em/6)"@))
                    } else if c2 == ' ' {
                        Ok((k + 1, "space"@))
                    } else if c2 == '(' || c2 == ')' {
                        Ok((k + 1, Seq::empty()))
                    } else if c2 == ',' {
                        Ok((k + 1, "space.sixth"@))
                    } else if c2 == ':' || c2 == '>' {
                        Ok((k + 1, "space.med"@))
                    } else if c2 == ';' {
                        Ok((k + 1, "#h(5em/18)"@))
                    } else if c2 == '|' {
                        Ok((k + 1, "||"@))
                    } else if c2 == '\\' {
                        Ok((k + 1, "\\"@))
                    } else {
                        Ok((k + 1, seq![c2]))
                    }
                }
            } else {
                word_step(s, k, w)
            }
        } else {
            Err((Seq::empty(), Seq::empty()))
        }
    } else if c == '_' || c == '^' {
        if i + 1 >= s.len() {
            Err(("Unexpected end of input"@, Seq::empty()))
        } else if s[i + 1] == '{' {
            match next_param_spec(s, i + 1) {
                Err(m) => Err((m, Seq::empty())),
                Ok((j, p)) => if p.len() < s.len() && i < j {
                    match lt_spec(p) {
                        Err(e) => Err(e),
                        Ok(t) => Ok((j, seq![c] + "("@ + t + ")"@)),
                    }
                } else {
                    Err((Seq::empty(), Seq::empty()))
                },
            }
        } else {
            Ok((i + 2, seq![c, s[i + 1]]))
        }
    } else if c == '%' {
        let j = until_chars_spec(s, i + 1, "\n"@).0;
        let cmt = until_chars_spec(s, i + 1, "\n"@).1;
        Ok((j, "//"@ + cmt + "\n"@))
    } else if c == '~' {
        Ok((i + 1, "space.nobreak"@))
    } else if c == '/' || c == '"' {
        Ok((i + 1, seq!['\\', c]))
    } else if c == '{' || c == '}' {
        Ok((i + 1, Seq::empty()))
    } else {
        Ok((i + 1, seq![c]))
    }
}

/// Dispatch on a scanned command word, the scanner standing at `k`.
pub open spec fn word_step(s: Seq<char>, k: int, w: Seq<char>) -> StepRes
    decreases s.len(), 1int, s.len() - k, 10int when 0 <= k <= s.len()
{
    if literal_entry_spec(w) is Some {
        Ok((k, literal_entry_spec(w)->Some_0))
    } else if single_entry_spec(w) is Some {
        single_frag(s, k, single_entry_spec(w)->Some_0.0, single_entry_spec(w)->Some_0.1)
    } else if double_entry_spec(w) is Some {
        double_frag(s, k, double_entry_spec(w)->Some_0.0, double_entry_spec(w)->Some_0.1)
    } else if accent_entry_spec(w) is Some {
        accent_frag(s, k, accent_entry_spec(w)->Some_0)
    } else {
        custom_step(s, k, w)
    }
}

/// The commands needing bespoke handling, first half.
pub open spec fn custom_step(s: Seq<char>, k: int, w: Seq<char>) -> StepRes
    decreases s.len(), 1int, s.len() - k, 9int when 0 <= k <= s.len()
{
    if w == "begin"@ {
        begin_step(s, k)
    } else if w == "boxed"@ {
        wrap_frag(
            s,
            k,
            "#box(inset: (left: 3pt, right: 3pt), outset: (top: 3pt, bottom: 3pt), stroke: 0.5pt)[$"@,
            "$]"@,
        )
    } else if w == "Bra"@ || w == "bra"@ {
        wrap_frag(s, k, "lr(angle.l "@, " |)"@)
    } else if w == "Braket"@ || w == "braket"@ {
        braket_frag(s, k)
    } else if w == "char"@ {
        char_step(s, k)
    } else if w == "colorbox"@ {
        colorbox_step(s, k)
    } else if w == "fbox"@ {
        text_wrap_frag(
            s,
            k,
            "#box(inset: (left: 3pt, right: 3pt), outset: (top: 3pt, bottom: 3pt))[$upright("@,
            ")$]"@,
        )
    } else if w == "fcolorbox"@ {
        fcolorbox_step(s, k)
    } else if w == "hbox"@ || w == "mathnormal"@ || w == "mathop"@ {
        wrap_frag(s, k, ""@, ""@)
    } else if w == "hphantom"@ {
        wrap_frag(s, k, "#box(height: 0pt, hide[$"@, "$])"@)
    } else if w == "Ket"@ || w == "ket"@ {
        wrap_frag(s, k, "lr(| "@, " angle.r)"@)
    } else if w == "left"@ {
        left_step(s, k)
    } else if w == "mathbin"@ || w == "operatorname"@ {
        esc_op_frag(s, k, "#math.op(\""@, "\")"@)
    } else if w == "operatorname*"@ || w == "operatornamewithlimits"@ {
        esc_op_frag(s, k, "#math.op(\""@, "\", limits: true)"@)
    } else {
        custom_step2(s, k, w)
    }
}

/// The commands needing bespoke handling, second half; an unrecognised
/// word falls through to the verbatim default.
pub open spec fn custom_step2(s: Seq<char>, k: int, w: Seq<char>) -> StepRes
    decreases s.len(), 1int, s.len() - k, 8int when 0 <= k <= s.len()
{
    if w == "mathclose"@ {
        wrap_frag(s, k, "#h(0pt) "@, ""@)
    } else if w == "mathopen"@ {
        wrap_frag(s, k, ""@, " #h(0pt)"@)
    } else if w == "overbrace"@ {
        brace_frag(s, k, "overbrace"@, '^')
    } else if w == "underbrace"@ {
        brace_frag(s, k, "underbrace"@, '_')
    } else if w == "phantom"@ {
        wrap_frag(s, k, "#hide[$"@, "$]"@)
    } else if w == "raisebox"@ {
        raisebox_step(s, k)
    } else if w == "rule"@ {
        rule_step(s, k)
    } else if w == "Set"@ || w == "set"@ {
        wrap_frag(s, k, "{"@, "}"@)
    } else if w == "sqrt"@ {
        sqrt_step(s, k)
    } else if w == "text"@ || w == "textmd"@ || w == "textnormal"@ || w == "textrm"@ || w
        == "textup"@ {
        text_wrap_frag(s, k, "#["@, "]"@)
    } else if w == "textbf"@ {
        text_wrap_frag(s, k, "bold(#["@, "])"@)
    } else if w == "textcolor"@ {
        textcolor_step(s, k)
    } else if w == "textit"@ {
        text_wrap_frag(s, k, "italic(#["@, "])"@)
    } else if w == "textsf"@ {
        text_wrap_frag(s, k, "sans(#["@, "])"@)
    } else if w == "texttt"@ {
        text_wrap_frag(s, k, "mono(#["@, "])"@)
    } else if w == "vphantom"@ {
        wrap_frag(s, k, "#box(width: 0pt, hide[$"@, "$])"@)
    } else {
        Ok((k, w))
    }
}

/// A single-argument wrapper: capture one argument, translate it, wrap it
/// in `fname(...)`, with an optional fixed leading parameter list.
pub open spec fn single_frag(s: Seq<char>, pos: int, fname: Seq<char>, pre: Option<Seq<char>>) -> StepRes
    decreases s.len(), 1int, s.len() - pos, 5int when 0 <= pos <= s.len()
{
    match next_param_spec(s, pos) {
        Err(m) => Err((m, Seq::empty())),
        Ok((j, p)) => if p.len() < s.len() {
            match lt_spec(p) {
                Err(e) => Err(e),
                Ok(t) => Ok(
                    (
                        j,
                        fname + "("@ + (match pre {
                            Some(x) => x + ", "@,
                            None => Seq::empty(),
                        }) + t + ")"@,
                    ),
                ),
            }
        } else {
            Err((Seq::empty(), Seq::empty()))
        },
    }
}

/// A double-argument wrapper: both arguments are captured and translated
/// left to right; an optional outer call wraps the result.
pub open spec fn double_frag(s: Seq<char>, pos: int, fname: Seq<char>, wrap: Option<Seq<char>>) -> StepRes
    decreases s.len(), 1int, s.len() - pos, 5int when 0 <= pos <= s.len()
{
    match next_param_spec(s, pos) {
        Err(m) => Err((m, Seq::empty())),
        Ok((j1, p1)) => if p1.len() < s.len() && pos < j1 && j1 <= s.len() {
            match lt_spec(p1) {
                Err(e) => Err(e),
                Ok(t1) => match next_param_spec(s, j1) {
                    Err(m) => Err((m, Seq::empty())),
                    Ok((j2, p2)) => if p2.len() < s.len() {
                        match lt_spec(p2) {
                            Err(e) => Err(e),
                            Ok(t2) => {
                                let inner = fname + "("@ + t1 + ", "@ + t2 + ")"@;
                                Ok(
                                    (
                                        j2,
                                        match wrap {
                                            Some(x) => x + "("@ + inner + ")"@,
                                            None => inner,
                                        },
                                    ),
                                )
                            },
                        }
                    } else {
                        Err((Seq::empty(), Seq::empty()))
                    },
                },
            }
        } else {
            Err((Seq::empty(), Seq::empty()))
        },
    }
}

/// An accent composer: the argument with a fixed combining mark appended
/// as a second positional value.
pub open spec fn accent_frag(s: Seq<char>, pos: int, acc: Seq<char>) -> StepRes
    decreases s.len(), 1int, s.len() - pos, 5int when 0 <= pos <= s.len()
{
    match next_param_spec(s, pos) {
        Err(m) => Err((m, Seq::empty())),
        Ok((j, p)) => if p.len() < s.len() {
            match lt_spec(p) {
                Err(e) => Err(e),
                Ok(t) => Ok((j, "accent("@ + t + ", "@ + acc + ")"@)),
            }
        } else {
            Err((Seq::empty(), Seq::empty()))
        },
    }
}

/// One translated argument between a fixed prefix and suffix.
pub open spec fn wrap_frag(s: Seq<char>, pos: int, pre: Seq<char>, post: Seq<char>) -> StepRes
    decreases s.len(), 1int, s.len() - pos, 5int when 0 <= pos <= s.len()
{
    match next_param_spec(s, pos) {
        Err(m) => Err((m, Seq::empty())),
        Ok((j, p)) => if p.len() < s.len() {
            match lt_spec(p) {
                Err(e) => Err(e),
                Ok(t) => Ok((j, pre + t + post)),
            }
        } else {
            Err((Seq::empty(), Seq::empty()))
        },
    }
}

/// One text-mode argument between a fixed prefix and suffix.
pub open spec fn text_wrap_frag(s: Seq<char>, pos: int, pre: Seq<char>, post: Seq<char>) -> StepRes
    decreases s.len(), 1int, s.len() - pos, 5int when 0 <= pos <= s.len()
{
    match next_param_spec(s, pos) {
        Err(m) => Err((m, Seq::empty())),
        Ok((j, p)) => if p.len() < s.len() {
            match text_spec(p) {
                Err(e) => Err(e),
                Ok(t) => Ok((j, pre + t + post)),
            }
        } else {
            Err((Seq::empty(), Seq::empty()))
        },
    }
}

/// One raw argument, escaped as a markup string, between a fixed prefix
/// and suffix.
pub open spec fn esc_op_frag(s: Seq<char>, pos: int, pre: Seq<char>, post: Seq<char>) -> StepRes
    decreases s.len(), 1int, s.len() - pos, 5int when 0 <= pos <= s.len()
{
    match next_param_spec(s, pos) {
        Err(m) => Err((m, Seq::empty())),
        Ok((j, p)) => Ok((j, pre + escape_string_spec(p) + post)),
    }
}

/// The bra-ket form whose bars become `mid(|)` in the translated argument.
pub open spec fn braket_frag(s: Seq<char>, pos: int) -> StepRes
    decreases s.len(), 1int, s.len() - pos, 5int when 0 <= pos <= s.len()
{
    match next_param_spec(s, pos) {
        Err(m) => Err((m, Seq::empty())),
        Ok((j, p)) => if p.len() < s.len() {
            match lt_spec(p) {
                Err(e) => Err(e),
                Ok(t) => Ok((j, "lr(angle.l "@ + replace_bars(t) + " angle.r)"@)),
            }
        } else {
            Err((Seq::empty(), Seq::empty()))
        },
    }
}

/// An over- or underbrace, with a lookahead for an attached label.
pub open spec fn brace_frag(s: Seq<char>, pos: int, name: Seq<char>, opch: char) -> StepRes
    decreases s.len(), 1int, s.len() - pos, 5int when 0 <= pos <= s.len()
{
    match next_param_spec(s, pos) {
        Err(m) => Err((m, Seq::empty())),
        Ok((j, p)) => if p.len() < s.len() && pos < j && j <= s.len() {
            match lt_spec(p) {
                Err(e) => Err(e),
                Ok(t1) => if j < s.len() && s[j] == opch {
                    match next_param_spec(s, j + 1) {
                        Err(m) => Err((m, Seq::empty())),
                        Ok((j2, p2)) => if p2.len() < s.len() {
                            match lt_spec(p2) {
                                Err(e) => Err(e),
                                Ok(t2) => Ok(
                                    (j2, name + "("@ + t1 + ", "@ + t2 + ")"@),
                                ),
                            }
                        } else {
                            Err((Seq::empty(), Seq::empty()))
                        },
                    }
                } else {
                    Ok((j, name + "("@ + t1 + ")"@))
                },
            }
        } else {
            Err((Seq::empty(), Seq::empty()))
        },
    }
}

/// `left ... right`: a raw opening delimiter, the translated enclosed
/// body, a raw closing delimiter, wrapped in a grouping call.
pub open spec fn left_step(s: Seq<char>, pos: int) -> StepRes
    decreases s.len(), 1int, s.len() - pos, 5int when 0 <= pos <= s.len()
{
    match next_param_spec(s, pos) {
        Err(m) => Err((m, Seq::empty())),
        Ok((j, d1)) => if pos < j && j <= s.len() {
            let e = until_string_spec(s, j, "\\right"@).0;
            let body = until_string_spec(s, j, "\\right"@).1;
            if body.len() < s.len() && j <= e && e <= s.len() {
                match lt_spec(body) {
                    Err(ep) => Err(ep),
                    Ok(t) => match next_param_spec(s, e) {
                        Err(m) => Err((m, Seq::empty())),
                        Ok((j2, d2)) => Ok((j2, "lr("@ + d1 + t + d2 + ")"@)),
                    },
                }
            } else {
                Err((Seq::empty(), Seq::empty()))
            }
        } else {
            Err((Seq::empty(), Seq::empty()))
        },
    }
}

/// A raised box: a raw length, then a translated body.
pub open spec fn raisebox_step(s: Seq<char>, pos: int) -> StepRes
    decreases s.len(), 1int, s.len() - pos, 5int when 0 <= pos <= s.len()
{
    match next_param_spec(s, pos) {
        Err(m) => Err((m, Seq::empty())),
        Ok((j, p1)) => if pos < j && j <= s.len() {
            match next_param_spec(s, j) {
                Err(m) => Err((m, Seq::empty())),
                Ok((j2, p2)) => if p2.len() < s.len() {
                    match lt_spec(p2) {
                        Err(e) => Err(e),
                        Ok(t) => Ok(
                            (j2, "#text(baseline: -"@ + p1 + ")["@ + t + "]"@),
                        ),
                    }
                } else {
                    Err((Seq::empty(), Seq::empty()))
                },
            }
        } else {
            Err((Seq::empty(), Seq::empty()))
        },
    }
}

/// A filled rule: an optional vertical offset selects the wrapper; width
/// and height are passed through as raw lengths.
pub open spec fn rule_step(s: Seq<char>, pos: int) -> StepRes
    decreases s.len(), 1int, s.len() - pos, 5int when 0 <= pos <= s.len()
{
    let j0 = np_optional_spec(s, pos).0;
    let opt = np_optional_spec(s, pos).1;
    if 0 <= j0 && j0 <= s.len() {
        match next_param_spec(s, j0) {
            Err(m) => Err((m, Seq::empty())),
            Ok((j1, p1)) => if j0 < j1 && j1 <= s.len() {
                match next_param_spec(s, j1) {
                    Err(m) => Err((m, Seq::empty())),
                    Ok((j2, p2)) => if opt.len() == 0 {
                        Ok(
                            (
                                j2,
                                "#box(fill: black, width: "@ + p1 + ", height: "@ + p2 + ")"@,
                            ),
                        )
                    } else {
                        Ok(
                            (
                                j2,
                                "#box(inset: (bottom: "@ + opt + "), box(fill: black, width: "@
                                    + p1 + ", height: "@ + p2 + "))"@,
                            ),
                        )
                    },
                }
            } else {
                Err((Seq::empty(), Seq::empty()))
            },
        }
    } else {
        Err((Seq::empty(), Seq::empty()))
    }
}

/// A square or n-th root, selected by the optional index argument.
pub open spec fn sqrt_step(s: Seq<char>, pos: int) -> StepRes
    decreases s.len(), 1int, s.len() - pos, 6int when 0 <= pos <= s.len()
{
    let j0 = np_optional_spec(s, pos).0;
    let opt = np_optional_spec(s, pos).1;
    if pos <= j0 && j0 <= s.len() {
        if opt.len() == 0 {
            single_frag(s, j0, "sqrt"@, None)
        } else {
            if opt.len() < s.len() {
                match lt_spec(opt) {
                    Err(e) => Err(e),
                    Ok(ti) => match next_param_spec(s, j0) {
                        Err(m) => Err((m, Seq::empty())),
                        Ok((j, p)) => if p.len() < s.len() {
                            match lt_spec(p) {
                                Err(e) => Err(e),
                                Ok(t) => Ok((j, "root("@ + ti + ", "@ + t + ")"@)),
                            }
                        } else {
                            Err((Seq::empty(), Seq::empty()))
                        },
                    },
                }
            } else {
                Err((Seq::empty(), Seq::empty()))
            }
        }
    } else {
        Err((Seq::empty(), Seq::empty()))
    }
}

/// A coloured box: a raw colour, then a text-mode body.
pub open spec fn colorbox_step(s: Seq<char>, pos: int) -> StepRes
    decreases s.len(), 1int, s.len() - pos, 5int when 0 <= pos <= s.len()
{
    match next_param_spec(s, pos) {
        Err(m) => Err((m, Seq::empty())),
        Ok((j1, p1)) => if pos < j1 && j1 <= s.len() {
            match next_param_spec(s, j1) {
                Err(m) => Err((m, Seq::empty())),
                Ok((j2, p2)) => if p2.len() < s.len() {
                    match text_spec(p2) {
                        Err(e) => Err(e),
                        Ok(t) => Ok(
                            (
                                j2,
                                "#box(inset: (left: 3pt, right: 3pt), outset: (top: 3pt, bottom: 3pt), fill: "@
                                    + color_spec(p1) + ")["@ + t + "]"@,
                            ),
                        ),
                    }
                } else {
                    Err((Seq::empty(), Seq::empty()))
                },
            }
        } else {
            Err((Seq::empty(), Seq::empty()))
        },
    }
}

/// A framed coloured box: two raw colours, then a text-mode body.
pub open spec fn fcolorbox_step(s: Seq<char>, pos: int) -> StepRes
    decreases s.len(), 1int, s.len() - pos, 5int when 0 <= pos <= s.len()
{
    match next_param_spec(s, pos) {
        Err(m) => Err((m, Seq::empty())),
        Ok((j1, p1)) => if pos < j1 && j1 <= s.len() {
            match next_param_spec(s, j1) {
                Err(m) => Err((m, Seq::empty())),
                Ok((j2, p2)) => if j1 < j2 && j2 <= s.len() {
                    match next_param_spec(s, j2) {
                        Err(m) => Err((m, Seq::empty())),
                        Ok((j3, p3)) => if p3.len() < s.len() {
                            match text_spec(p3) {
                                Err(e) => Err(e),
                                Ok(t) => Ok(
                                    (
                                        j3,
                                        "#box(inset: (left: 3pt, right: 3pt), outset: (top: 3pt, bottom: 3pt))(stroke: "@
                                            + color_spec(p1) + ", fill: "@ + color_spec(p2)
                                            + ")[$upright("@ + t + ")$]"@,
                                    ),
                                ),
                            }
                        } else {
                            Err((Seq::empty(), Seq::empty()))
                        },
                    }
                } else {
                    Err((Seq::empty(), Seq::empty()))
                },
            }
        } else {
            Err((Seq::empty(), Seq::empty()))
        },
    }
}

/// Coloured text: a raw colour, then a text-mode body.
pub open spec fn textcolor_step(s: Seq<char>, pos: int) -> StepRes
    decreases s.len(), 1int, s.len() - pos, 5int when 0 <= pos <= s.len()
{
    match next_param_spec(s, pos) {
        Err(m) => Err((m, Seq::empty())),
        Ok((j1, p1)) => if pos < j1 && j1 <= s.len() {
            match next_param_spec(s, j1) {
                Err(m) => Err((m, Seq::empty())),
                Ok((j2, p2)) => if p2.len() < s.len() {
                    match text_spec(p2) {
                        Err(e) => Err(e),
                        Ok(t) => Ok(
                            (j2, "#text(fill: "@ + color_spec(p1) + ")["@ + t + "]"@),
                        ),
                    }
                } else {
                    Err((Seq::empty(), Seq::empty()))
                },
            }
        } else {
            Err((Seq::empty(), Seq::empty()))
        },
    }
}

/// A character-code command: a quoted hex, quoted octal, or bare decimal
/// numeral, re-emitted as a Unicode escape.
pub open spec fn char_step(s: Seq<char>, pos: int) -> StepRes
    decreases s.len(), 1int, s.len() - pos, 5int when 0 <= pos <= s.len()
{
    if pos >= s.len() {
        Err(("Unexpected end of input"@, Seq::empty()))
    } else if s[pos] == '"' {
        let j = until_chars_not_spec(s, pos + 1, "0123456789abcdefABCDEF"@).0;
        let hex = until_chars_not_spec(s, pos + 1, "0123456789abcdefABCDEF"@).1;
        Ok((j, "\\u{"@ + hex + "}"@))
    } else if s[pos] == '\'' {
        let j = until_chars_not_spec(s, pos + 1, "01234567"@).0;
        let oct = until_chars_not_spec(s, pos + 1, "01234567"@).1;
        if oct.len() == 0 || num_val(oct, 8) > 0xFFFF_FFFF {
            Err(("Invalid character code"@, s.subrange(j, s.len() as int)))
        } else {
            Ok((j, "\\u{"@ + hex_of(num_val(oct, 8)) + "}"@))
        }
    } else {
        let j = until_chars_not_spec(s, pos, "0123456789"@).0;
        let dec = until_chars_not_spec(s, pos, "0123456789"@).1;
        if dec.len() == 0 || num_val(dec, 10) > 0xFFFF_FFFF {
            Err(("Invalid character code"@, s.subrange(j, s.len() as int)))
        } else {
            Ok((j, "\\u{"@ + hex_of(num_val(dec, 10)) + "}"@))
        }
    }
}

/// An environment: its name selects equation-like, matrix-like or
/// case-split handling; an unknown name is a hard failure.
pub open spec fn begin_step(s: Seq<char>, pos: int) -> StepRes
    decreases s.len(), 1int, s.len() - pos, 5int when 0 <= pos <= s.len()
{
    match next_param_spec(s, pos) {
        Err(m) => Err((m, Seq::empty())),
        Ok((j, env)) => if pos < j && j <= s.len() {
            env_step(s, j, env)
        } else {
            Err((Seq::empty(), Seq::empty()))
        },
    }
}

pub open spec fn env_pat(env: Seq<char>) -> Seq<char> {
    "\\end{"@ + env + "}"@
}

pub open spec fn env_step(s: Seq<char>, j: int, env: Seq<char>) -> StepRes
    decreases s.len(), 1int, s.len() - j, 4int when 0 <= j <= s.len()
{
    if env == "align"@ || env == "align*"@ || env == "aligned"@ || env == "equation"@ || env
        == "equation*"@ || env == "gather"@ || env == "gather*"@ || env == "gathered"@ || env
        == "split"@ {
        env_math_body(s, j, env)
    } else if env == "alignat"@ || env == "alignat*"@ || env == "alignedat"@ {
        match next_param_spec(s, j) {
            Err(m) => Err((m, Seq::empty())),
            Ok((j2, _p)) => if j <= j2 && j2 <= s.len() {
                env_math_body(s, j2, env)
            } else {
                Err((Seq::empty(), Seq::empty()))
            },
        }
    } else if env == "array"@ || env == "darray"@ {
        let j2 = match next_param_spec(s, j) {
            Ok((x, _p)) => x,
            Err(_m) => s.len() as int,
        };
        if j <= j2 && j2 <= s.len() {
            env_matrix_body(s, j2, env, "mat(delim: #none, "@, ")"@)
        } else {
            Err((Seq::empty(), Seq::empty()))
        }
    } else if env == "matrix"@ {
        env_matrix_body(s, j, env, "mat(delim: #none, "@, ")"@)
    } else if env == "pmatrix"@ {
        env_matrix_body(s, j, env, "mat(delim: \"(\", "@, ")"@)
    } else if env == "bmatrix"@ {
        env_matrix_body(s, j, env, "mat(delim: \"[\", "@, ")"@)
    } else if env == "Bmatrix"@ {
        env_matrix_body(s, j, env, "mat(delim: \"{\", "@, ")"@)
    } else if env == "vmatrix"@ {
        env_matrix_body(s, j, env, "mat(delim: \"|\", "@, ")"@)
    } else if env == "Vmatrix"@ {
        env_matrix_body(s, j, env, "mat(delim: \"||\", "@, ")"@)
    } else if env == "matrix*"@ || env == "pmatrix*"@ || env == "bmatrix*"@ || env == "Bmatrix*"@
        || env == "vmatrix*"@ || env == "Vmatrix*"@ {
        let j2 = np_optional_spec(s, j).0;
        if j <= j2 && j2 <= s.len() {
            if env == "matrix*"@ {
                env_matrix_body(s, j2, env, "mat(delim: #none, "@, ")"@)
            } else if env == "pmatrix*"@ {
                env_matrix_body(s, j2, env, "mat(delim: \"(\", "@, ")"@)
            } else if env == "bmatrix*"@ {
                env_matrix_body(s, j2, env, "mat(delim: \"[\", "@, ")"@)
            } else if env == "Bmatrix*"@ {
                env_matrix_body(s, j2, env, "mat(delim: \"{\", "@, ")"@)
            } else if env == "vmatrix*"@ {
                env_matrix_body(s, j2, env, "mat(delim: \"|\", "@, ")"@)
            } else {
                env_matrix_body(s, j2, env, "mat(delim: \"||\", "@, ")"@)
            }
        } else {
            Err((Seq::empty(), Seq::empty()))
        }
    } else if env == "smallmatrix"@ {
        env_matrix_body(s, j, env, "inline(mat(delim: #none, "@, "))"@)
    } else if env == "cases"@ || env == "dcases"@ {
        env_cases_body(s, j, env, "cases("@)
    } else if env == "rcases"@ {
        env_cases_body(s, j, env, "cases(reverse: #true, "@)
    } else if env == "CD"@ {
        let e = until_string_spec(s, j, env_pat(env)).0;
        let body = until_string_spec(s, j, env_pat(env)).1;
        Ok((e, "CD("@ + body + ")"@))
    } else {
        Err(("Unknown environment"@, s.subrange(j, s.len() as int)))
    }
}

/// An equation-like body, translated in math mode and wrapped in display
/// delimiters; the numbering the source may ask for is dropped.
pub open spec fn env_math_body(s: Seq<char>, j: int, env: Seq<char>) -> StepRes
    decreases s.len(), 1int, s.len() - j, 3int when 0 <= j <= s.len()
{
    let e = until_string_spec(s, j, env_pat(env)).0;
    let body = until_string_spec(s, j, env_pat(env)).1;
    if body.len() < s.len() {
        match lt_spec(body) {
            Err(ep) => Err(ep),
            Ok(t) => Ok((e, "$$"@ + t + "$$"@)),
        }
    } else {
        Err((Seq::empty(), Seq::empty()))
    }
}

/// A matrix-like body, run through the grid split and wrapped with its
/// delimiter.
pub open spec fn env_matrix_body(s: Seq<char>, j: int, env: Seq<char>, pre: Seq<char>, post: Seq<char>) -> StepRes
    decreases s.len(), 1int, s.len() - j, 3int when 0 <= j <= s.len()
{
    let e = until_string_spec(s, j, env_pat(env)).0;
    let body = until_string_spec(s, j, env_pat(env)).1;
    if body.len() < s.len() {
        match matrix_spec(body) {
            Err(ep) => Err(ep),
            Ok(m) => Ok((e, pre + m + post)),
        }
    } else {
        Err((Seq::empty(), Seq::empty()))
    }
}

/// A case-split body: branches split at double backslashes only, each
/// translated independently, joined with commas.
pub open spec fn env_cases_body(s: Seq<char>, j: int, env: Seq<char>, pre: Seq<char>) -> StepRes
    decreases s.len(), 1int, s.len() - j, 3int when 0 <= j <= s.len()
{
    let e = until_string_spec(s, j, env_pat(env)).0;
    let body = until_string_spec(s, j, env_pat(env)).1;
    if body.len() < s.len() {
        match cells_trans(split_cases(body), body.len() as int) {
            Err(ep) => Err(ep),
            Ok(t) => Ok((e, pre + t + ")"@)),
        }
    } else {
        Err((Seq::empty(), Seq::empty()))
    }
}

/// The whole grid: rows split, cells split and repaired, every cell
/// translated, cells joined with commas and rows with semicolons.
pub open spec fn matrix_spec(body: Seq<char>) -> Result<Seq<char>, TransErr>
    decreases body.len(), 7int, 0int, 0int,
{
    rows_trans(split_rows(body), body.len() as int)
}

pub open spec fn rows_trans(rows: Seq<Seq<char>>, b: int) -> Result<Seq<char>, TransErr>
    decreases b, 6int, rows.len(), 0int when b >= 0
{
    if rows.len() == 0 {
        Ok(Seq::empty())
    } else {
        let cells = merge_cells(split_amp(rows[0]));
        match cells_trans(cells, b) {
            Err(e) => Err(e),
            Ok(t) => if rows.len() == 1 {
                Ok(t)
            } else {
                match rows_trans(rows.drop_first(), b) {
                    Err(e) => Err(e),
                    Ok(rest) => Ok(t + ";"@ + rest),
                }
            },
        }
    }
}

pub open spec fn cells_trans(cells: Seq<Seq<char>>, b: int) -> Result<Seq<char>, TransErr>
    decreases b, 5int, cells.len(), 0int when b >= 0
{
    if cells.len() == 0 {
        Ok(Seq::empty())
    } else {
        if cells[0].len() <= b {
            match lt_spec(cells[0]) {
                Err(e) => Err(e),
                Ok(t) => if cells.len() == 1 {
                    Ok(t)
                } else {
                    match cells_trans(cells.drop_first(), b) {
                        Err(e) => Err(e),
                        Ok(rest) => Ok(t + ","@ + rest),
                    }
                },
            }
        } else {
            Err((Seq::empty(), Seq::empty()))
        }
    }
}

// ---------------------------------------------------------------------------
// executable helpers
// ---------------------------------------------------------------------------

/// Appends `frag` to `out`, inserting the spacing-rule blank when needed.
fn smash_push(out: &mut String, frag: &str)
    ensures
        final(out)@ == smash(old(out)@, frag@),
{
    let ol = out.as_str().unicode_len();
    let fl = frag.unicode_len();
    if ol > 0 && fl > 0 {
        let last = out.as_str().get_char(ol - 1);
        let first = frag.get_char(0);
        if last.is_alphabetic() && (first.is_alphabetic() || is_digit(first)) {
            out.push(' ');
            out.append(frag);
            assert(out@ =~= smash(old(out)@, frag@));
            return ;
        }
    }
    out.append(frag);
    assert(out@ =~= smash(old(out)@, frag@));
}

fn one_char(c: char) -> (r: String)
    ensures
        r@ == seq![c],
{
    let mut r = String::new();
    r.push(c);
    assert(r@ =~= seq![c]);
    r
}

fn two_chars(a: char, b: char) -> (r: String)
    ensures
        r@ == seq![a, b],
{
    let mut r = String::new();
    r.push(a);
    r.push(b);
    assert(r@ =~= seq![a, b]);
    r
}

/// Every `|` in `s` replaced by `mid(|)`.
#[verifier::loop_isolation(false)]
fn replace_bars_exec(s: &str) -> (r: String)
    ensures
        r@ == replace_bars(s@),
{
    let v = str_chars(s);
    let n = v.len();
    let mut r = String::new();
    let mut i: usize = 0;
    proof {
        assert(s@.subrange(0, n as int) =~= s@);
        assert(replace_bars(s@) =~= Seq::<char>::empty() + replace_bars(s@));
    }
    while i < n
        invariant
            n == s@.len(),
            v@ == s@,
            i <= n,
            replace_bars(s@) == r@ + replace_bars(s@.subrange(i as int, n as int)),
        decreases n - i,
    {
        let ghost tail = s@.subrange(i as int, n as int);
        proof {
            assert(tail.drop_first() =~= s@.subrange(i + 1, n as int));
            assert(tail.first() == s@[i as int]);
        }
        if v[i] == '|' {
            r.append("mid(|)");
        } else {
            r.push(v[i]);
        }
        proof {
            assert(replace_bars(s@) =~= r@ + replace_bars(s@.subrange(i + 1, n as int)));
        }
        i += 1;
    }
    proof {
        assert(s@.subrange(n as int, n as int) =~= Seq::<char>::empty());
        assert(replace_bars(s@) =~= r@);
    }
    r
}

fn hex_digit_exec(d: u32) -> (c: char)
    requires
        d < 16,
    ensures
        c == hex_digit_ch(d as int),
{
    if d == 0 {
        '0'
    } else if d == 1 {
        '1'
    } else if d == 2 {
        '2'
    } else if d == 3 {
        '3'
    } else if d == 4 {
        '4'
    } else if d == 5 {
        '5'
    } else if d == 6 {
        '6'
    } else if d == 7 {
        '7'
    } else if d == 8 {
        '8'
    } else if d == 9 {
        '9'
    } else if d == 10 {
        'a'
    } else if d == 11 {
        'b'
    } else if d == 12 {
        'c'
    } else if d == 13 {
        'd'
    } else if d == 14 {
        'e'
    } else {
        'f'
    }
}

/// `n` written in lowercase hex, as the character-code command re-emits it.
fn to_hex(n: u32) -> (r: String)
    ensures
        r@ == hex_of(n as int),
    decreases n,
{
    if n < 16 {
        let mut r = String::new();
        r.push(hex_digit_exec(n));
        assert(r@ =~= hex_of(n as int));
        r
    } else {
        let mut r = to_hex(n / 16);
        r.push(hex_digit_exec(n % 16));
        r
    }
}

proof fn lemma_num_val_nonneg(s: Seq<char>, base: int)
    requires
        base >= 1,
        forall|k: int| 0 <= k < s.len() ==> digit_val(#[trigger] s[k]) >= 0,
    ensures
        num_val(s, base) >= 0,
    decreases s.len(),
{
    if s.len() > 0 {
        assert(forall|k: int|
            0 <= k < s.drop_last().len() ==> digit_val(#[trigger] s.drop_last()[k]) >= 0);
        lemma_num_val_nonneg(s.drop_last(), base);
        let v = num_val(s.drop_last(), base);
        assert(v * base >= v) by (nonlinear_arith)
            requires
                v >= 0,
                base >= 1,
        ;
    }
}

/// Reading more digits never shrinks the value.
proof fn lemma_num_val_mono(s: Seq<char>, base: int, i: int)
    requires
        base >= 1,
        0 <= i <= s.len(),
        forall|k: int| 0 <= k < s.len() ==> digit_val(#[trigger] s[k]) >= 0,
    ensures
        num_val(s.subrange(0, i), base) <= num_val(s, base),
    decreases s.len() - i,
{
    if i == s.len() {
        assert(s.subrange(0, i) =~= s);
    } else {
        lemma_num_val_mono(s, base, i + 1);
        let a = num_val(s.subrange(0, i), base);
        assert(s.subrange(0, i + 1).drop_last() =~= s.subrange(0, i));
        assert(s.subrange(0, i + 1).last() == s[i]);
        assert(forall|k: int|
            0 <= k < s.subrange(0, i).len() ==> digit_val(#[trigger] s.subrange(0, i)[k]) >= 0);
        lemma_num_val_nonneg(s.subrange(0, i), base);
        assert(a * base >= a) by (nonlinear_arith)
            requires
                a >= 0,
                base >= 1,
        ;
    }
}

/// A digit string read as a number, or nothing when the string is empty or
/// the value does not fit.
#[verifier::loop_isolation(false)]
fn parse_num(digits: &str, base: u32) -> (r: Option<u32>)
    requires
        2 <= base <= 16,
        forall|k: int| 0 <= k < digits@.len() ==> 0 <= digit_val(#[trigger] digits@[k]) < base,
    ensures
        match r {
            Some(v) => digits@.len() > 0 && v as int == num_val(digits@, base as int),
            None => digits@.len() == 0 || num_val(digits@, base as int) > 0xFFFF_FFFF,
        },
{
    let v = str_chars(digits);
    let n = v.len();
    if n == 0 {
        return None;
    }
    let mut acc: u64 = 0;
    let mut i: usize = 0;
    while i < n
        invariant
            n == digits@.len(),
            v@ == digits@,
            i <= n,
            acc <= 0xFFFF_FFFFu64,
            acc as int == num_val(digits@.subrange(0, i as int), base as int),
        decreases n - i,
    {
        assert(v@[i as int] as u32 >= 48);
        let d = (v[i] as u32) - 48;
        proof {
            assert(acc * (base as u64) <= 0xFFFF_FFFFu64 * 16) by (nonlinear_arith)
                requires
                    acc <= 0xFFFF_FFFFu64,
                    base as u64 <= 16,
            ;
        }
        let next = acc * (base as u64) + (d as u64);
        proof {
            assert(digits@.subrange(0, i + 1).drop_last() =~= digits@.subrange(0, i as int));
            assert(digits@.subrange(0, i + 1).last() == digits@[i as int]);
        }
        if next > 0xFFFF_FFFFu64 {
            proof {
                lemma_num_val_mono(digits@, base as int, i + 1);
            }
            return None;
        }
        acc = next;
        i += 1;
    }
    proof {
        assert(digits@.subrange(0, n as int) =~= digits@);
    }
    Some(acc as u32)
}

/// Each character of a digit set is a digit below its base.
proof fn lemma_digits_valid(ds: Seq<char>, cs: Seq<char>, base: int)
    requires
        base == 8 || base == 10,
        base == 8 ==> cs == "01234567"@,
        base == 10 ==> cs == "0123456789"@,
        forall|k: int| 0 <= k < ds.len() ==> cs.contains(#[trigger] ds[k]),
    ensures
        forall|k: int| 0 <= k < ds.len() ==> 0 <= digit_val(#[trigger] ds[k]) < base,
{
    if base == 8 {
        reveal_strlit("01234567");
    } else {
        reveal_strlit("0123456789");
    }
    assert forall|k: int| 0 <= k < ds.len() implies 0 <= digit_val(#[trigger] ds[k])
        < base by {
        let c = ds[k];
        assert(cs.contains(c));
        let idx = choose|x: int| 0 <= x < cs.len() && cs[x] == c;
        if idx == 0 {
            assert(c == '0');
        } else if idx == 1 {
            assert(c == '1');
        } else if idx == 2 {
            assert(c == '2');
        } else if idx == 3 {
            assert(c == '3');
        } else if idx == 4 {
            assert(c == '4');
        } else if idx == 5 {
            assert(c == '5');
        } else if idx == 6 {
            assert(c == '6');
        } else if idx == 7 {
            assert(c == '7');
        } else if idx == 8 {
            assert(c == '8');
        } else {
            assert(c == '9');
        }
    }
}

/// A colour argument: a `#`-literal becomes an `rgb` constructor call, a
/// named colour passes through unchanged.
pub fn color_to_typst(color: &str) -> (r: String)
    ensures
        r@ == color_spec(color@),
{
    let n = color.unicode_len();
    if n > 0 && color.get_char(0) == '#' {
        let mut r = String::from_str("rgb(\"");
        r.append(color);
        r.append("\")");
        assert(r@ =~= color_spec(color@));
        r
    } else {
        String::from_str(color)
    }
}

// ---------------------------------------------------------------------------
// the grid split, executable
// ---------------------------------------------------------------------------

/// The views of a list of strings.
pub open spec fn deep(cs: Seq<String>) -> Seq<Seq<char>> {
    cs.map_values(|x: String| x@)
}

fn subvec(v: &Vec<char>, a: usize, b: usize) -> (r: Vec<char>)
    requires
        a <= b <= v@.len(),
    ensures
        r@ == v@.subrange(a as int, b as int),
{
    let mut r: Vec<char> = Vec::new();
    let mut i = a;
    while i < b
        invariant
            a <= i <= b <= v@.len(),
            r@ == v@.subrange(a as int, i as int),
        decreases b - i,
    {
        r.push(v[i]);
        assert(r@ =~= v@.subrange(a as int, i + 1));
        i += 1;
    }
    r
}

fn subvec_str(v: &Vec<String>, a: usize) -> (r: Vec<String>)
    requires
        a <= v@.len(),
    ensures
        r@.len() == v@.len() - a,
        forall|k: int| 0 <= k < r@.len() ==> (#[trigger] r@[k])@ == v@[a + k]@,
{
    let mut r: Vec<String> = Vec::new();
    let mut i = a;
    while i < v.len()
        invariant
            a <= i <= v@.len(),
            r@.len() == i - a,
            forall|k: int| 0 <= k < r@.len() ==> (#[trigger] r@[k])@ == v@[a + k]@,
        decreases v@.len() - i,
    {
        r.push(v[i].clone());
        i += 1;
    }
    r
}

fn row_sep_exec(v: &Vec<char>, j: usize) -> (k: usize)
    requires
        j <= v@.len(),
    ensures
        k as int == row_sep_at(v@, j as int),
{
    let n = v.len();
    if n >= 2 && j <= n - 2 && v[j] == '\\' && v[j + 1] == '\\' {
        2
    } else if n >= 3 && j <= n - 3 && v[j] == '\\' && v[j + 1] == 'c' && v[j + 2] == 'r' {
        3
    } else {
        0
    }
}

/// The body split into rows at every double backslash or backslash-`cr`.
#[verifier::loop_isolation(false)]
fn split_rows_exec(v: &Vec<char>) -> (rows: Vec<String>)
    ensures
        deep(rows@) == split_rows(v@),
        rows@.len() >= 1,
    decreases v@.len(),
{
    let n = v.len();
    let mut j: usize = 0;
    while j < n && row_sep_exec(v, j) == 0
        invariant
            j <= n,
            n == v@.len(),
            row_stop(v@, 0) == row_stop(v@, j as int),
        decreases n - j,
    {
        j += 1;
    }
    assert(row_stop(v@, 0) == j as int);
    let k = row_sep_exec(v, j);
    if k >= 2 {
        let head = chars_string_range(v, 0, j);
        let rest = subvec(v, j + k, n);
        let mut rr = split_rows_exec(&rest);
        rr.insert(0, head);
        proof {
            assert(deep(rr@) =~~= seq![v@.subrange(0, j as int)] + split_rows(rest@));
            assert(deep(rr@) =~~= split_rows(v@));
        }
        rr
    } else {
        let mut rr: Vec<String> = Vec::new();
        rr.push(chars_string_range(v, 0, n));
        proof {
            assert(v@.subrange(0, n as int) =~= v@);
            assert(deep(rr@) =~~= split_rows(v@));
        }
        rr
    }
}

/// A row split into cells at every ampersand.
#[verifier::loop_isolation(false)]
fn split_amp_exec(v: &Vec<char>) -> (cells: Vec<String>)
    ensures
        deep(cells@) == split_amp(v@),
        cells@.len() >= 1,
    decreases v@.len(),
{
    let n = v.len();
    let mut j: usize = 0;
    while j < n && v[j] != '&'
        invariant
            j <= n,
            n == v@.len(),
            find_ch(v@, 0, '&') == find_ch(v@, j as int, '&'),
        decreases n - j,
    {
        j += 1;
    }
    assert(find_ch(v@, 0, '&') == j as int);
    if j < n {
        let head = chars_string_range(v, 0, j);
        let rest = subvec(v, j + 1, n);
        let mut rr = split_amp_exec(&rest);
        rr.insert(0, head);
        proof {
            assert(deep(rr@) =~~= seq![v@.subrange(0, j as int)] + split_amp(rest@));
            assert(deep(rr@) =~~= split_amp(v@));
        }
        rr
    } else {
        let mut rr: Vec<String> = Vec::new();
        rr.push(chars_string_range(v, 0, n));
        proof {
            assert(v@.subrange(0, n as int) =~= v@);
            assert(deep(rr@) =~~= split_amp(v@));
        }
        rr
    }
}

/// A case body split into branches at every double backslash.
#[verifier::loop_isolation(false)]
fn split_cases_exec(v: &Vec<char>) -> (cells: Vec<String>)
    ensures
        deep(cells@) == split_cases(v@),
        cells@.len() >= 1,
    decreases v@.len(),
{
    let n = v.len();
    let mut j: usize = 0;
    while j < n && !(n >= 2 && j <= n - 2 && v[j] == '\\' && v[j + 1] == '\\')
        invariant
            j <= n,
            n == v@.len(),
            find2(v@, 0) == find2(v@, j as int),
        decreases n - j,
    {
        j += 1;
    }
    assert(find2(v@, 0) == j as int);
    if j < n {
        let head = chars_string_range(v, 0, j);
        let rest = subvec(v, j + 2, n);
        let mut rr = split_cases_exec(&rest);
        rr.insert(0, head);
        proof {
            assert(deep(rr@) =~~= seq![v@.subrange(0, j as int)] + split_cases(rest@));
            assert(deep(rr@) =~~= split_cases(v@));
        }
        rr
    } else {
        let mut rr: Vec<String> = Vec::new();
        rr.push(chars_string_range(v, 0, n));
        proof {
            assert(v@.subrange(0, n as int) =~= v@);
            assert(deep(rr@) =~~= split_cases(v@));
        }
        rr
    }
}

/// The repair walk over a cell list, as the grid split applies it.
#[verifier::loop_isolation(false)]
fn merge_cells_exec(cells: Vec<String>) -> (r: Vec<String>)
    ensures
        deep(r@) == merge_cells(deep(cells@)),
    decreases cells@.len(),
{
    if cells.len() == 0 {
        proof {
            assert(deep(cells@) =~~= Seq::<Seq<char>>::empty());
        }
        return cells;
    }
    let l0 = cells[0].as_str().unicode_len();
    let ends_bs = l0 > 0 && cells[0].as_str().get_char(l0 - 1) == '\\';
    if ends_bs && cells.len() >= 2 {
        let mut merged = cells[0].clone();
        merged.push('&');
        merged.append(cells[1].as_str());
        assert(merged@ =~= cells@[0]@ + seq!['&'] + cells@[1]@);
        let rest = subvec_str(&cells, 2);
        let ghost drest = deep(rest@);
        proof {
            assert(drest =~~= deep(cells@).subrange(2, deep(cells@).len() as int));
        }
        let mut rr = merge_cells_exec(rest);
        rr.insert(0, merged);
        proof {
            assert(deep(cells@)[0] == cells@[0]@);
            assert(deep(cells@)[0].last() == '\\');
            assert(deep(rr@) =~~= seq![merged@] + merge_cells(drest));
            assert(deep(rr@) =~~= merge_cells(deep(cells@)));
        }
        rr
    } else {
        let head = cells[0].clone();
        let rest = subvec_str(&cells, 1);
        let ghost drest = deep(rest@);
        proof {
            assert(drest =~~= deep(cells@).drop_first());
        }
        let mut rr = merge_cells_exec(rest);
        rr.insert(0, head);
        proof {
            assert(deep(cells@)[0] == cells@[0]@);
            assert(deep(rr@) =~~= seq![cells@[0]@] + merge_cells(drest));
            assert(deep(rr@) =~~= merge_cells(deep(cells@)));
        }
        rr
    }
}

// ---------------------------------------------------------------------------
// the translators
// ---------------------------------------------------------------------------

/// Translates every cell in `cells` from `idx` on and joins them with
/// commas.
fn cells_go(cells: &Vec<String>, idx: usize, b: Ghost<int>) -> (r: Result<String, ScannerError>)
    requires
        idx <= cells@.len(),
        b@ >= 0,
        forall|k: int| idx <= k < cells@.len() ==> (#[trigger] cells@[k])@.len() <= b@,
    ensures
        match r {
            Ok(t) => cells_trans(deep(cells@).skip(idx as int), b@) == Ok::<Seq<char>, TransErr>(
                t@,
            ),
            Err(e) => cells_trans(deep(cells@).skip(idx as int), b@) == Err::<Seq<char>, TransErr>(
                (e@.0, e@.1),
            ),
        },
    decreases b@, 5int, cells@.len() - idx, 0int,
{
    let ghost rest = deep(cells@).skip(idx as int);
    if idx == cells.len() {
        proof {
            assert(rest =~~= Seq::<Seq<char>>::empty());
        }
        return Ok(String::new());
    }
    proof {
        assert(rest[0] == cells@[idx as int]@);
    }
    match latex_to_typst(cells[idx].as_str()) {
        Err(e) => Err(e),
        Ok(t) => {
            if idx + 1 == cells.len() {
                proof {
                    assert(rest.len() == 1);
                }
                Ok(t)
            } else {
                proof {
                    assert(rest.drop_first() =~~= deep(cells@).skip(idx + 1));
                }
                match cells_go(cells, idx + 1, b) {
                    Err(e) => Err(e),
                    Ok(restt) => {
                        let mut out = t;
                        out.append(",");
                        out.append(restt.as_str());
                        Ok(out)
                    },
                }
            }
        },
    }
}

/// Translates every row from `idx` on — cells split, repaired and joined
/// with commas — and joins the rows with semicolons.
fn rows_go(rows: &Vec<String>, idx: usize, b: Ghost<int>) -> (r: Result<String, ScannerError>)
    requires
        idx <= rows@.len(),
        b@ >= 0,
        forall|k: int| idx <= k < rows@.len() ==> (#[trigger] rows@[k])@.len() <= b@,
    ensures
        match r {
            Ok(t) => rows_trans(deep(rows@).skip(idx as int), b@) == Ok::<Seq<char>, TransErr>(t@),
            Err(e) => rows_trans(deep(rows@).skip(idx as int), b@) == Err::<Seq<char>, TransErr>(
                (e@.0, e@.1),
            ),
        },
    decreases b@, 6int, rows@.len() - idx, 0int,
{
    let ghost rest = deep(rows@).skip(idx as int);
    if idx == rows.len() {
        proof {
            assert(rest =~~= Seq::<Seq<char>>::empty());
        }
        return Ok(String::new());
    }
    proof {
        assert(rest[0] == rows@[idx as int]@);
    }
    let rv = str_chars(rows[idx].as_str());
    let pieces = split_amp_exec(&rv);
    let cells = merge_cells_exec(pieces);
    proof {
        lemma_split_amp_sum(rows@[idx as int]@);
        lemma_merge_cells_bound(split_amp(rows@[idx as int]@), rows@[idx as int]@.len() as int);
        assert(forall|k: int|
            0 <= k < cells@.len() ==> (#[trigger] cells@[k])@.len() <= b@) by {
            assert(forall|k: int|
                0 <= k < cells@.len() ==> (#[trigger] cells@[k])@ == deep(cells@)[k]);
        }
        assert(deep(cells@).skip(0) =~~= deep(cells@));
    }
    match cells_go(&cells, 0, b) {
        Err(e) => Err(e),
        Ok(t) => {
            if idx + 1 == rows.len() {
                proof {
                    assert(rest.len() == 1);
                }
                Ok(t)
            } else {
                proof {
                    assert(rest.drop_first() =~~= deep(rows@).skip(idx + 1));
                }
                match rows_go(rows, idx + 1, b) {
                    Err(e) => Err(e),
                    Ok(restt) => {
                        let mut out = t;
                        out.append(";");
                        out.append(restt.as_str());
                        Ok(out)
                    },
                }
            }
        },
    }
}

/// Splits an environment body into rows and cells, repairs escaped
/// ampersands, translates every cell, and joins cells with commas and rows
/// with semicolons.
pub fn matrix_to_typst(content: String) -> (r: Result<String, ScannerError>)
    ensures
        match r {
            Ok(t) => matrix_spec(content@) == Ok::<Seq<char>, TransErr>(t@),
            Err(e) => matrix_spec(content@) == Err::<Seq<char>, TransErr>((e@.0, e@.1)),
        },
    decreases content@.len(), 7int, 0int, 0int,
{
    let v = str_chars(content.as_str());
    let rows = split_rows_exec(&v);
    proof {
        lemma_split_rows_bound(content@);
        assert(forall|k: int|
            0 <= k < rows@.len() ==> (#[trigger] rows@[k])@.len() <= content@.len()) by {
            assert(forall|k: int|
                0 <= k < rows@.len() ==> (#[trigger] rows@[k])@ == deep(rows@)[k]);
        }
        assert(deep(rows@).skip(0) =~~= deep(rows@));
    }
    rows_go(&rows, 0, Ghost(content@.len() as int))
}

pub open spec fn opt_view(o: Option<&str>) -> Option<Seq<char>> {
    match o {
        Some(x) => Some(x@),
        None => None,
    }
}

/// One captured argument, translated and wrapped in `fname(...)`, with an
/// optional fixed leading parameter list.
fn tr_single(sc: &mut Scanner, fname: &str, pre: Option<&str>) -> (r: Result<String, ScannerError>)
    requires
        1 <= old(sc).at() <= old(sc).input().len(),
    ensures
        final(sc).input() == old(sc).input(),
        old(sc).at() <= final(sc).at() <= old(sc).input().len(),
        match r {
            Ok(f) => single_frag(old(sc).input(), old(sc).at(), fname@, opt_view(pre)) == Ok::<
                (int, Seq<char>),
                TransErr,
            >((final(sc).at(), f@)),
            Err(e) => single_frag(old(sc).input(), old(sc).at(), fname@, opt_view(pre)) == Err::<
                (int, Seq<char>),
                TransErr,
            >((e@.0, e@.1)),
        },
    decreases old(sc).input().len(), 1int, old(sc).input().len() - old(sc).at(), 5int,
{
    let ghost s = sc.input();
    let ghost pos = sc.at();
    proof {
        lemma_next_param(s, pos);
    }
    match sc.next_param() {
        Err(e) => Err(e),
        Ok(p) => {
            match latex_to_typst(p.as_str()) {
                Err(e) => Err(e),
                Ok(t) => {
                    let mut f = String::from_str(fname);
                    f.append("(");
                    if let Some(x) = pre {
                        f.append(x);
                        f.append(", ");
                        f.append(t.as_str());
                        f.append(")");
                        assert(f@ =~= fname@ + "("@ + (x@ + ", "@) + t@ + ")"@);
                    } else {
                        f.append(t.as_str());
                        f.append(")");
                        assert(f@ =~= fname@ + "("@ + Seq::<char>::empty() + t@ + ")"@);
                    }
                    Ok(f)
                },
            }
        },
    }
}

/// Two captured arguments, translated left to right, wrapped in
/// `fname(..., ...)` and optionally in a second outer call.
fn tr_double(sc: &mut Scanner, fname: &str, wrap: Option<&str>) -> (r: Result<String, ScannerError>)
    requires
        1 <= old(sc).at() <= old(sc).input().len(),
    ensures
        final(sc).input() == old(sc).input(),
        old(sc).at() <= final(sc).at() <= old(sc).input().len(),
        match r {
            Ok(f) => double_frag(old(sc).input(), old(sc).at(), fname@, opt_view(wrap)) == Ok::<
                (int, Seq<char>),
                TransErr,
            >((final(sc).at(), f@)),
            Err(e) => double_frag(old(sc).input(), old(sc).at(), fname@, opt_view(wrap)) == Err::<
                (int, Seq<char>),
                TransErr,
            >((e@.0, e@.1)),
        },
    decreases old(sc).input().len(), 1int, old(sc).input().len() - old(sc).at(), 5int,
{
    let ghost s = sc.input();
    let ghost pos = sc.at();
    proof {
        lemma_next_param(s, pos);
    }
    match sc.next_param() {
        Err(e) => Err(e),
        Ok(p1) => {
            let ghost j1 = sc.at();
            match latex_to_typst(p1.as_str()) {
                Err(e) => Err(e),
                Ok(t1) => {
                    proof {
                        lemma_next_param(s, j1);
                    }
                    match sc.next_param() {
                        Err(e) => Err(e),
                        Ok(p2) => {
                            match latex_to_typst(p2.as_str()) {
                                Err(e) => Err(e),
                                Ok(t2) => {
                                    let mut inner = String::from_str(fname);
                                    inner.append("(");
                                    inner.append(t1.as_str());
                                    inner.append(", ");
                                    inner.append(t2.as_str());
                                    inner.append(")");
                                    assert(inner@ =~= fname@ + "("@ + t1@ + ", "@ + t2@ + ")"@);
                                    if let Some(x) = wrap {
                                        let mut f = String::from_str(x);
                                        f.append("(");
                                        f.append(inner.as_str());
                                        f.append(")");
                                        assert(f@ =~= x@ + "("@ + inner@ + ")"@);
                                        Ok(f)
                                    } else {
                                        Ok(inner)
                                    }
                                },
                            }
                        },
                    }
                },
            }
        },
    }
}

/// One captured argument with a fixed combining mark as a second value.
fn tr_accent(sc: &mut Scanner, acc: &str) -> (r: Result<String, ScannerError>)
    requires
        1 <= old(sc).at() <= old(sc).input().len(),
    ensures
        final(sc).input() == old(sc).input(),
        old(sc).at() <= final(sc).at() <= old(sc).input().len(),
        match r {
            Ok(f) => accent_frag(old(sc).input(), old(sc).at(), acc@) == Ok::<
                (int, Seq<char>),
                TransErr,
            >((final(sc).at(), f@)),
            Err(e) => accent_frag(old(sc).input(), old(sc).at(), acc@) == Err::<
                (int, Seq<char>),
                TransErr,
            >((e@.0, e@.1)),
        },
    decreases old(sc).input().len(), 1int, old(sc).input().len() - old(sc).at(), 5int,
{
    let ghost s = sc.input();
    let ghost pos = sc.at();
    proof {
        lemma_next_param(s, pos);
    }
    match sc.next_param() {
        Err(e) => Err(e),
        Ok(p) => {
            match latex_to_typst(p.as_str()) {
                Err(e) => Err(e),
                Ok(t) => {
                    let mut f = String::from_str("accent(");
                    f.append(t.as_str());
                    f.append(", ");
                    f.append(acc);
                    f.append(")");
                    assert(f@ =~= "accent("@ + t@ + ", "@ + acc@ + ")"@);
                    Ok(f)
                },
            }
        },
    }
}

/// One translated argument between a fixed prefix and suffix.
fn tr_wrap(sc: &mut Scanner, pre: &str, post: &str) -> (r: Result<String, ScannerError>)
    requires
        1 <= old(sc).at() <= old(sc).input().len(),
    ensures
        final(sc).input() == old(sc).input(),
        old(sc).at() <= final(sc).at() <= old(sc).input().len(),
        match r {
            Ok(f) => wrap_frag(old(sc).input(), old(sc).at(), pre@, post@) == Ok::<
                (int, Seq<char>),
                TransErr,
            >((final(sc).at(), f@)),
            Err(e) => wrap_frag(old(sc).input(), old(sc).at(), pre@, post@) == Err::<
                (int, Seq<char>),
                TransErr,
            >((e@.0, e@.1)),
        },
    decreases old(sc).input().len(), 1int, old(sc).input().len() - old(sc).at(), 5int,
{
    let ghost s = sc.input();
    let ghost pos = sc.at();
    proof {
        lemma_next_param(s, pos);
    }
    match sc.next_param() {
        Err(e) => Err(e),
        Ok(p) => {
            match latex_to_typst(p.as_str()) {
                Err(e) => Err(e),
                Ok(t) => {
                    let mut f = String::from_str(pre);
                    f.append(t.as_str());
                    f.append(post);
                    assert(f@ =~= pre@ + t@ + post@);
                    Ok(f)
                },
            }
        },
    }
}

/// One text-mode argument between a fixed prefix and suffix.
fn tr_text_wrap(sc: &mut Scanner, pre: &str, post: &str) -> (r: Result<String, ScannerError>)
    requires
        1 <= old(sc).at() <= old(sc).input().len(),
    ensures
        final(sc).input() == old(sc).input(),
        old(sc).at() <= final(sc).at() <= old(sc).input().len(),
        match r {
            Ok(f) => text_wrap_frag(old(sc).input(), old(sc).at(), pre@, post@) == Ok::<
                (int, Seq<char>),
                TransErr,
            >((final(sc).at(), f@)),
            Err(e) => text_wrap_frag(old(sc).input(), old(sc).at(), pre@, post@) == Err::<
                (int, Seq<char>),
                TransErr,
            >((e@.0, e@.1)),
        },
    decreases old(sc).input().len(), 1int, old(sc).input().len() - old(sc).at(), 5int,
{
    let ghost s = sc.input();
    let ghost pos = sc.at();
    proof {
        lemma_next_param(s, pos);
    }
    match sc.next_param() {
        Err(e) => Err(e),
        Ok(p) => {
            match text_to_typst(p.as_str()) {
                Err(e) => Err(e),
                Ok(t) => {
                    let mut f = String::from_str(pre);
                    f.append(t.as_str());
                    f.append(post);
                    assert(f@ =~= pre@ + t@ + post@);
                    Ok(f)
                },
            }
        },
    }
}

/// One raw argument, escaped as a markup string, between a fixed prefix
/// and suffix.
fn tr_esc_op(sc: &mut Scanner, pre: &str, post: &str) -> (r: Result<String, ScannerError>)
    requires
        1 <= old(sc).at() <= old(sc).input().len(),
    ensures
        final(sc).input() == old(sc).input(),
        old(sc).at() <= final(sc).at() <= old(sc).input().len(),
        match r {
            Ok(f) => esc_op_frag(old(sc).input(), old(sc).at(), pre@, post@) == Ok::<
                (int, Seq<char>),
                TransErr,
            >((final(sc).at(), f@)),
            Err(e) => esc_op_frag(old(sc).input(), old(sc).at(), pre@, post@) == Err::<
                (int, Seq<char>),
                TransErr,
            >((e@.0, e@.1)),
        },
    decreases old(sc).input().len(), 1int, old(sc).input().len() - old(sc).at(), 5int,
{
    let ghost s = sc.input();
    let ghost pos = sc.at();
    proof {
        lemma_next_param(s, pos);
    }
    match sc.next_param() {
        Err(e) => Err(e),
        Ok(p) => {
            let esc = escape_string(p.as_str());
            let mut f = String::from_str(pre);
            f.append(esc.as_str());
            f.append(post);
            assert(f@ =~= pre@ + esc@ + post@);
            Ok(f)
        },
    }
}

/// The bra-ket whose bars become `mid(|)` in the translated argument.
fn tr_braket(sc: &mut Scanner) -> (r: Result<String, ScannerError>)
    requires
        1 <= old(sc).at() <= old(sc).input().len(),
    ensures
        final(sc).input() == old(sc).input(),
        old(sc).at() <= final(sc).at() <= old(sc).input().len(),
        match r {
            Ok(f) => braket_frag(old(sc).input(), old(sc).at()) == Ok::<(int, Seq<char>), TransErr>(
                (final(sc).at(), f@),
            ),
            Err(e) => braket_frag(old(sc).input(), old(sc).at()) == Err::<
                (int, Seq<char>),
                TransErr,
            >((e@.0, e@.1)),
        },
    decreases old(sc).input().len(), 1int, old(sc).input().len() - old(sc).at(), 5int,
{
    let ghost s = sc.input();
    let ghost pos = sc.at();
    proof {
        lemma_next_param(s, pos);
    }
    match sc.next_param() {
        Err(e) => Err(e),
        Ok(p) => {
            match latex_to_typst(p.as_str()) {
                Err(e) => Err(e),
                Ok(t) => {
                    let rep = replace_bars_exec(t.as_str());
                    let mut f = String::from_str("lr(angle.l ");
                    f.append(rep.as_str());
                    f.append(" angle.r)");
                    assert(f@ =~= "lr(angle.l "@ + rep@ + " angle.r)"@);
                    Ok(f)
                },
            }
        },
    }
}

/// An over- or underbrace with a lookahead for an attached label.
fn tr_brace(sc: &mut Scanner, name: &str, opch: char) -> (r: Result<String, ScannerError>)
    requires
        1 <= old(sc).at() <= old(sc).input().len(),
    ensures
        final(sc).input() == old(sc).input(),
        old(sc).at() <= final(sc).at() <= old(sc).input().len(),
        match r {
            Ok(f) => brace_frag(old(sc).input(), old(sc).at(), name@, opch) == Ok::<
                (int, Seq<char>),
                TransErr,
            >((final(sc).at(), f@)),
            Err(e) => brace_frag(old(sc).input(), old(sc).at(), name@, opch) == Err::<
                (int, Seq<char>),
                TransErr,
            >((e@.0, e@.1)),
        },
    decreases old(sc).input().len(), 1int, old(sc).input().len() - old(sc).at(), 5int,
{
    let ghost s = sc.input();
    let ghost pos = sc.at();
    proof {
        lemma_next_param(s, pos);
    }
    match sc.next_param() {
        Err(e) => Err(e),
        Ok(p) => {
            let ghost j = sc.at();
            match latex_to_typst(p.as_str()) {
                Err(e) => Err(e),
                Ok(t1) => {
                    let mut with_label = false;
                    match sc.peek() {
                        Some(c) => {
                            if c == opch {
                                with_label = true;
                            }
                        },
                        None => {},
                    }
                    if with_label {
                        sc.next();
                        proof {
                            lemma_next_param(s, j + 1);
                        }
                        match sc.next_param() {
                            Err(e) => Err(e),
                            Ok(p2) => {
                                match latex_to_typst(p2.as_str()) {
                                    Err(e) => Err(e),
                                    Ok(t2) => {
                                        let mut f = String::from_str(name);
                                        f.append("(");
                                        f.append(t1.as_str());
                                        f.append(", ");
                                        f.append(t2.as_str());
                                        f.append(")");
                                        assert(f@ =~= name@ + "("@ + t1@ + ", "@ + t2@ + ")"@);
                                        Ok(f)
                                    },
                                }
                            },
                        }
                    } else {
                        let mut f = String::from_str(name);
                        f.append("(");
                        f.append(t1.as_str());
                        f.append(")");
                        assert(f@ =~= name@ + "("@ + t1@ + ")"@);
                        Ok(f)
                    }
                },
            }
        },
    }
}

/// `left ... right`: raw delimiters around a translated body.
fn tr_left(sc: &mut Scanner) -> (r: Result<String, ScannerError>)
    requires
        1 <= old(sc).at() <= old(sc).input().len(),
    ensures
        final(sc).input() == old(sc).input(),
        old(sc).at() <= final(sc).at() <= old(sc).input().len(),
        match r {
            Ok(f) => left_step(old(sc).input(), old(sc).at()) == Ok::<(int, Seq<char>), TransErr>(
                (final(sc).at(), f@),
            ),
            Err(e) => left_step(old(sc).input(), old(sc).at()) == Err::<(int, Seq<char>), TransErr>(
                (e@.0, e@.1),
            ),
        },
    decreases old(sc).input().len(), 1int, old(sc).input().len() - old(sc).at(), 5int,
{
    let ghost s = sc.input();
    let ghost pos = sc.at();
    proof {
        lemma_next_param(s, pos);
        reveal_strlit("\\right");
    }
    match sc.next_param() {
        Err(e) => Err(e),
        Ok(d1) => {
            let ghost j = sc.at();
            proof {
                lemma_until_string(s, j, "\\right"@);
            }
            let body = sc.until_string("\\right");
            let ghost e0 = sc.at();
            match latex_to_typst(body.as_str()) {
                Err(e) => Err(e),
                Ok(t) => {
                    proof {
                        lemma_next_param(s, e0);
                    }
                    match sc.next_param() {
                        Err(e) => Err(e),
                        Ok(d2) => {
                            let mut f = String::from_str("lr(");
                            f.append(d1.as_str());
                            f.append(t.as_str());
                            f.append(d2.as_str());
                            f.append(")");
                            assert(f@ =~= "lr("@ + d1@ + t@ + d2@ + ")"@);
                            Ok(f)
                        },
                    }
                },
            }
        },
    }
}

/// A raised box: a raw length, then a translated body.
fn tr_raisebox(sc: &mut Scanner) -> (r: Result<String, ScannerError>)
    requires
        1 <= old(sc).at() <= old(sc).input().len(),
    ensures
        final(sc).input() == old(sc).input(),
        old(sc).at() <= final(sc).at() <= old(sc).input().len(),
        match r {
            Ok(f) => raisebox_step(old(sc).input(), old(sc).at()) == Ok::<
                (int, Seq<char>),
                TransErr,
            >((final(sc).at(), f@)),
            Err(e) => raisebox_step(old(sc).input(), old(sc).at()) == Err::<
                (int, Seq<char>),
                TransErr,
            >((e@.0, e@.1)),
        },
    decreases old(sc).input().len(), 1int, old(sc).input().len() - old(sc).at(), 5int,
{
    let ghost s = sc.input();
    let ghost pos = sc.at();
    proof {
        lemma_next_param(s, pos);
    }
    match sc.next_param() {
        Err(e) => Err(e),
        Ok(p1) => {
            let ghost j = sc.at();
            proof {
                lemma_next_param(s, j);
            }
            match sc.next_param() {
                Err(e) => Err(e),
                Ok(p2) => {
                    match latex_to_typst(p2.as_str()) {
                        Err(e) => Err(e),
                        Ok(t) => {
                            let mut f = String::from_str("#text(baseline: -");
                            f.append(p1.as_str());
                            f.append(")[");
                            f.append(t.as_str());
                            f.append("]");
                            assert(f@ =~= "#text(baseline: -"@ + p1@ + ")["@ + t@ + "]"@);
                            Ok(f)
                        },
                    }
                },
            }
        },
    }
}

/// A filled rule: the optional vertical offset selects the wrapper.
fn tr_rule(sc: &mut Scanner) -> (r: Result<String, ScannerError>)
    requires
        1 <= old(sc).at() <= old(sc).input().len(),
    ensures
        final(sc).input() == old(sc).input(),
        old(sc).at() <= final(sc).at() <= old(sc).input().len(),
        match r {
            Ok(f) => rule_step(old(sc).input(), old(sc).at()) == Ok::<(int, Seq<char>), TransErr>(
                (final(sc).at(), f@),
            ),
            Err(e) => rule_step(old(sc).input(), old(sc).at()) == Err::<(int, Seq<char>), TransErr>(
                (e@.0, e@.1),
            ),
        },
    decreases old(sc).input().len(), 1int, old(sc).input().len() - old(sc).at(), 5int,
{
    let ghost s = sc.input();
    let ghost pos = sc.at();
    proof {
        lemma_np_optional(s, pos);
    }
    let opt = sc.next_param_optional();
    let ghost j0 = sc.at();
    proof {
        lemma_next_param(s, j0);
    }
    match sc.next_param() {
        Err(e) => Err(e),
        Ok(p1) => {
            let ghost j1 = sc.at();
            proof {
                lemma_next_param(s, j1);
            }
            match sc.next_param() {
                Err(e) => Err(e),
                Ok(p2) => {
                    if opt.as_str().unicode_len() == 0 {
                        let mut f = String::from_str("#box(fill: black, width: ");
                        f.append(p1.as_str());
                        f.append(", height: ");
                        f.append(p2.as_str());
                        f.append(")");
                        assert(f@ =~= "#box(fill: black, width: "@ + p1@ + ", height: "@ + p2@
                            + ")"@);
                        Ok(f)
                    } else {
                        let mut f = String::from_str("#box(inset: (bottom: ");
                        f.append(opt.as_str());
                        f.append("), box(fill: black, width: ");
                        f.append(p1.as_str());
                        f.append(", height: ");
                        f.append(p2.as_str());
                        f.append("))");
                        assert(f@ =~= "#box(inset: (bottom: "@ + opt@
                            + "), box(fill: black, width: "@ + p1@ + ", height: "@ + p2@ + "))"@);
                        Ok(f)
                    }
                },
            }
        },
    }
}

/// A square or n-th root, selected by the optional index.
fn tr_sqrt(sc: &mut Scanner) -> (r: Result<String, ScannerError>)
    requires
        1 <= old(sc).at() <= old(sc).input().len(),
    ensures
        final(sc).input() == old(sc).input(),
        old(sc).at() <= final(sc).at() <= old(sc).input().len(),
        match r {
            Ok(f) => sqrt_step(old(sc).input(), old(sc).at()) == Ok::<(int, Seq<char>), TransErr>(
                (final(sc).at(), f@),
            ),
            Err(e) => sqrt_step(old(sc).input(), old(sc).at()) == Err::<(int, Seq<char>), TransErr>(
                (e@.0, e@.1),
            ),
        },
    decreases old(sc).input().len(), 1int, old(sc).input().len() - old(sc).at(), 6int,
{
    let ghost s = sc.input();
    let ghost pos = sc.at();
    proof {
        lemma_np_optional(s, pos);
    }
    let opt = sc.next_param_optional();
    let ghost j0 = sc.at();
    if opt.as_str().unicode_len() == 0 {
        tr_single(sc, "sqrt", None)
    } else {
        match latex_to_typst(opt.as_str()) {
            Err(e) => Err(e),
            Ok(ti) => {
                proof {
                    lemma_next_param(s, j0);
                }
                match sc.next_param() {
                    Err(e) => Err(e),
                    Ok(p) => {
                        match latex_to_typst(p.as_str()) {
                            Err(e) => Err(e),
                            Ok(t) => {
                                let mut f = String::from_str("root(");
                                f.append(ti.as_str());
                                f.append(", ");
                                f.append(t.as_str());
                                f.append(")");
                                assert(f@ =~= "root("@ + ti@ + ", "@ + t@ + ")"@);
                                Ok(f)
                            },
                        }
                    },
                }
            },
        }
    }
}

/// A coloured box: a raw colour, then a text-mode body.
fn tr_colorbox(sc: &mut Scanner) -> (r: Result<String, ScannerError>)
    requires
        1 <= old(sc).at() <= old(sc).input().len(),
    ensures
        final(sc).input() == old(sc).input(),
        old(sc).at() <= final(sc).at() <= old(sc).input().len(),
        match r {
            Ok(f) => colorbox_step(old(sc).input(), old(sc).at()) == Ok::<
                (int, Seq<char>),
                TransErr,
            >((final(sc).at(), f@)),
            Err(e) => colorbox_step(old(sc).input(), old(sc).at()) == Err::<
                (int, Seq<char>),
                TransErr,
            >((e@.0, e@.1)),
        },
    decreases old(sc).input().len(), 1int, old(sc).input().len() - old(sc).at(), 5int,
{
    let ghost s = sc.input();
    let ghost pos = sc.at();
    proof {
        lemma_next_param(s, pos);
    }
    match sc.next_param() {
        Err(e) => Err(e),
        Ok(p1) => {
            let ghost j1 = sc.at();
            proof {
                lemma_next_param(s, j1);
            }
            match sc.next_param() {
                Err(e) => Err(e),
                Ok(p2) => {
                    match text_to_typst(p2.as_str()) {
                        Err(e) => Err(e),
                        Ok(t) => {
                            let c = color_to_typst(p1.as_str());
                            let mut f = String::from_str(
                                "#box(inset: (left: 3pt, right: 3pt), outset: (top: 3pt, bottom: 3pt), fill: ",
                            );
                            f.append(c.as_str());
                            f.append(")[");
                            f.append(t.as_str());
                            f.append("]");
                            assert(f@
                                =~= "#box(inset: (left: 3pt, right: 3pt), outset: (top: 3pt, bottom: 3pt), fill: "@
                                + c@ + ")["@ + t@ + "]"@);
                            Ok(f)
                        },
                    }
                },
            }
        },
    }
}

/// A framed coloured box: two raw colours, then a text-mode body.
fn tr_fcolorbox(sc: &mut Scanner) -> (r: Result<String, ScannerError>)
    requires
        1 <= old(sc).at() <= old(sc).input().len(),
    ensures
        final(sc).input() == old(sc).input(),
        old(sc).at() <= final(sc).at() <= old(sc).input().len(),
        match r {
            Ok(f) => fcolorbox_step(old(sc).input(), old(sc).at()) == Ok::<
                (int, Seq<char>),
                TransErr,
            >((final(sc).at(), f@)),
            Err(e) => fcolorbox_step(old(sc).input(), old(sc).at()) == Err::<
                (int, Seq<char>),
                TransErr,
            >((e@.0, e@.1)),
        },
    decreases old(sc).input().len(), 1int, old(sc).input().len() - old(sc).at(), 5int,
{
    let ghost s = sc.input();
    let ghost pos = sc.at();
    proof {
        lemma_next_param(s, pos);
    }
    match sc.next_param() {
        Err(e) => Err(e),
        Ok(p1) => {
            let ghost j1 = sc.at();
            proof {
                lemma_next_param(s, j1);
            }
            match sc.next_param() {
                Err(e) => Err(e),
                Ok(p2) => {
                    let ghost j2 = sc.at();
                    proof {
                        lemma_next_param(s, j2);
                    }
                    match sc.next_param() {
                        Err(e) => Err(e),
                        Ok(p3) => {
                            match text_to_typst(p3.as_str()) {
                                Err(e) => Err(e),
                                Ok(t) => {
                                    let c1 = color_to_typst(p1.as_str());
                                    let c2 = color_to_typst(p2.as_str());
                                    let mut f = String::from_str(
                                        "#box(inset: (left: 3pt, right: 3pt), outset: (top: 3pt, bottom: 3pt))(stroke: ",
                                    );
                                    f.append(c1.as_str());
                                    f.append(", fill: ");
                                    f.append(c2.as_str());
                                    f.append(")[$upright(");
                                    f.append(t.as_str());
                                    f.append(")$]");
                                    assert(f@
                                        =~= "#box(inset: (left: 3pt, right: 3pt), outset: (top: 3pt, bottom: 3pt))(stroke: "@
                                        + c1@ + ", fill: "@ + c2@ + ")[$upright("@ + t@ + ")$]"@);
                                    Ok(f)
                                },
                            }
                        },
                    }
                },
            }
        },
    }
}

/// Coloured text: a raw colour, then a text-mode body.
fn tr_textcolor(sc: &mut Scanner) -> (r: Result<String, ScannerError>)
    requires
        1 <= old(sc).at() <= old(sc).input().len(),
    ensures
        final(sc).input() == old(sc).input(),
        old(sc).at() <= final(sc).at() <= old(sc).input().len(),
        match r {
            Ok(f) => textcolor_step(old(sc).input(), old(sc).at()) == Ok::<
                (int, Seq<char>),
                TransErr,
            >((final(sc).at(), f@)),
            Err(e) => textcolor_step(old(sc).input(), old(sc).at()) == Err::<
                (int, Seq<char>),
                TransErr,
            >((e@.0, e@.1)),
        },
    decreases old(sc).input().len(), 1int, old(sc).input().len() - old(sc).at(), 5int,
{
    let ghost s = sc.input();
    let ghost pos = sc.at();
    proof {
        lemma_next_param(s, pos);
    }
    match sc.next_param() {
        Err(e) => Err(e),
        Ok(p1) => {
            let ghost j1 = sc.at();
            proof {
                lemma_next_param(s, j1);
            }
            match sc.next_param() {
                Err(e) => Err(e),
                Ok(p2) => {
                    match text_to_typst(p2.as_str()) {
                        Err(e) => Err(e),
                        Ok(t) => {
                            let c = color_to_typst(p1.as_str());
                            let mut f = String::from_str("#text(fill: ");
                            f.append(c.as_str());
                            f.append(")[");
                            f.append(t.as_str());
                            f.append("]");
                            assert(f@ =~= "#text(fill: "@ + c@ + ")["@ + t@ + "]"@);
                            Ok(f)
                        },
                    }
                },
            }
        },
    }
}

/// The character-code command: quoted hex, quoted octal or bare decimal,
/// re-emitted as a Unicode escape.
fn tr_char(sc: &mut Scanner) -> (r: Result<String, ScannerError>)
    requires
        1 <= old(sc).at() <= old(sc).input().len(),
    ensures
        final(sc).input() == old(sc).input(),
        old(sc).at() <= final(sc).at() <= old(sc).input().len(),
        match r {
            Ok(f) => char_step(old(sc).input(), old(sc).at()) == Ok::<(int, Seq<char>), TransErr>(
                (final(sc).at(), f@),
            ),
            Err(e) => char_step(old(sc).input(), old(sc).at()) == Err::<(int, Seq<char>), TransErr>(
                (e@.0, e@.1),
            ),
        },
    decreases old(sc).input().len(), 1int, old(sc).input().len() - old(sc).at(), 5int,
{
    let ghost s = sc.input();
    let ghost pos = sc.at();
    match sc.peek() {
        None => Err(ScannerError::from_parts(
            String::from_str("Unexpected end of input"),
            String::new(),
        )),
        Some(c) => {
            if c == '"' {
                sc.next();
                proof {
                    lemma_until_chars_not(s, pos + 1, "0123456789abcdefABCDEF"@);
                }
                let hex = sc.until_chars_not("0123456789abcdefABCDEF");
                let mut f = String::from_str("\\u{");
                f.append(hex.as_str());
                f.append("}");
                assert(f@ =~= "\\u{"@ + hex@ + "}"@);
                Ok(f)
            } else if c == '\'' {
                sc.next();
                proof {
                    lemma_until_chars_not(s, pos + 1, "01234567"@);
                }
                let oct = sc.until_chars_not("01234567");
                proof {
                    lemma_digits_valid(oct@, "01234567"@, 8);
                }
                match parse_num(oct.as_str(), 8) {
                    None => Err(ScannerError::from_parts(
                        String::from_str("Invalid character code"),
                        sc.rest(),
                    )),
                    Some(val) => {
                        let h = to_hex(val);
                        let mut f = String::from_str("\\u{");
                        f.append(h.as_str());
                        f.append("}");
                        assert(f@ =~= "\\u{"@ + h@ + "}"@);
                        Ok(f)
                    },
                }
            } else {
                proof {
                    lemma_until_chars_not(s, pos, "0123456789"@);
                }
                let dec = sc.until_chars_not("0123456789");
                proof {
                    lemma_digits_valid(dec@, "0123456789"@, 10);
                }
                match parse_num(dec.as_str(), 10) {
                    None => Err(ScannerError::from_parts(
                        String::from_str("Invalid character code"),
                        sc.rest(),
                    )),
                    Some(val) => {
                        let h = to_hex(val);
                        let mut f = String::from_str("\\u{");
                        f.append(h.as_str());
                        f.append("}");
                        assert(f@ =~= "\\u{"@ + h@ + "}"@);
                        Ok(f)
                    },
                }
            }
        },
    }
}

/// Builds the closing tag the environment body runs up to.
fn env_end_pat(env: &str) -> (r: String)
    ensures
        r@ == env_pat(env@),
        r@.len() >= 1,
{
    let mut pat = String::from_str("\\end{");
    pat.append(env);
    pat.append("}");
    proof {
        reveal_strlit("}");
    }
    assert(pat@ =~= "\\end{"@ + env@ + "}"@);
    pat
}

/// An equation-like body: translated in math mode, wrapped in display
/// delimiters.
fn tr_env_math(sc: &mut Scanner, env: &str) -> (r: Result<String, ScannerError>)
    requires
        1 <= old(sc).at() <= old(sc).input().len(),
    ensures
        final(sc).input() == old(sc).input(),
        old(sc).at() <= final(sc).at() <= old(sc).input().len(),
        match r {
            Ok(f) => env_math_body(old(sc).input(), old(sc).at(), env@) == Ok::<
                (int, Seq<char>),
                TransErr,
            >((final(sc).at(), f@)),
            Err(e) => env_math_body(old(sc).input(), old(sc).at(), env@) == Err::<
                (int, Seq<char>),
                TransErr,
            >((e@.0, e@.1)),
        },
    decreases old(sc).input().len(), 1int, old(sc).input().len() - old(sc).at(), 3int,
{
    let ghost s = sc.input();
    let ghost j = sc.at();
    let pat = env_end_pat(env);
    proof {
        lemma_until_string(s, j, pat@);
    }
    let body = sc.until_string(pat.as_str());
    match latex_to_typst(body.as_str()) {
        Err(e) => Err(e),
        Ok(t) => {
            let mut f = String::from_str("$$");
            f.append(t.as_str());
            f.append("$$");
            assert(f@ =~= "$$"@ + t@ + "$$"@);
            Ok(f)
        },
    }
}

/// A matrix-like body: the grid split, wrapped with its delimiter.
fn tr_env_matrix(sc: &mut Scanner, env: &str, pre: &str, post: &str) -> (r: Result<
    String,
    ScannerError,
>)
    requires
        1 <= old(sc).at() <= old(sc).input().len(),
    ensures
        final(sc).input() == old(sc).input(),
        old(sc).at() <= final(sc).at() <= old(sc).input().len(),
        match r {
            Ok(f) => env_matrix_body(old(sc).input(), old(sc).at(), env@, pre@, post@) == Ok::<
                (int, Seq<char>),
                TransErr,
            >((final(sc).at(), f@)),
            Err(e) => env_matrix_body(old(sc).input(), old(sc).at(), env@, pre@, post@) == Err::<
                (int, Seq<char>),
                TransErr,
            >((e@.0, e@.1)),
        },
    decreases old(sc).input().len(), 1int, old(sc).input().len() - old(sc).at(), 3int,
{
    let ghost s = sc.input();
    let ghost j = sc.at();
    let pat = env_end_pat(env);
    proof {
        lemma_until_string(s, j, pat@);
    }
    let body = sc.until_string(pat.as_str());
    match matrix_to_typst(body) {
        Err(e) => Err(e),
        Ok(m) => {
            let mut f = String::from_str(pre);
            f.append(m.as_str());
            f.append(post);
            assert(f@ =~= pre@ + m@ + post@);
            Ok(f)
        },
    }
}

/// A case-split body: branches split at double backslashes, each
/// translated, joined with commas.
fn tr_env_cases(sc: &mut Scanner, env: &str, pre: &str) -> (r: Result<String, ScannerError>)
    requires
        1 <= old(sc).at() <= old(sc).input().len(),
    ensures
        final(sc).input() == old(sc).input(),
        old(sc).at() <= final(sc).at() <= old(sc).input().len(),
        match r {
            Ok(f) => env_cases_body(old(sc).input(), old(sc).at(), env@, pre@) == Ok::<
                (int, Seq<char>),
                TransErr,
            >((final(sc).at(), f@)),
            Err(e) => env_cases_body(old(sc).input(), old(sc).at(), env@, pre@) == Err::<
                (int, Seq<char>),
                TransErr,
            >((e@.0, e@.1)),
        },
    decreases old(sc).input().len(), 1int, old(sc).input().len() - old(sc).at(), 3int,
{
    let ghost s = sc.input();
    let ghost j = sc.at();
    let pat = env_end_pat(env);
    proof {
        lemma_until_string(s, j, pat@);
    }
    let body = sc.until_string(pat.as_str());
    let bv = str_chars(body.as_str());
    let pieces = split_cases_exec(&bv);
    proof {
        lemma_split_cases_bound(body@);
        assert(forall|k: int|
            0 <= k < pieces@.len() ==> (#[trigger] pieces@[k])@.len() <= body@.len()) by {
            assert(forall|k: int|
                0 <= k < pieces@.len() ==> (#[trigger] pieces@[k])@ == deep(pieces@)[k]);
        }
        assert(deep(pieces@).skip(0) =~~= deep(pieces@));
    }
    match cells_go(&pieces, 0, Ghost(body@.len() as int)) {
        Err(e) => Err(e),
        Ok(t) => {
            let mut f = String::from_str(pre);
            f.append(t.as_str());
            f.append(")");
            assert(f@ =~= pre@ + t@ + ")"@);
            Ok(f)
        },
    }
}

/// The environment dispatch, after the name has been captured.
#[verifier::rlimit(60)]
fn step_begin(sc: &mut Scanner) -> (r: Result<String, ScannerError>)
    requires
        1 <= old(sc).at() <= old(sc).input().len(),
    ensures
        final(sc).input() == old(sc).input(),
        old(sc).at() <= final(sc).at() <= old(sc).input().len(),
        match r {
            Ok(f) => begin_step(old(sc).input(), old(sc).at()) == Ok::<(int, Seq<char>), TransErr>(
                (final(sc).at(), f@),
            ),
            Err(e) => begin_step(old(sc).input(), old(sc).at()) == Err::<
                (int, Seq<char>),
                TransErr,
            >((e@.0, e@.1)),
        },
    decreases old(sc).input().len(), 1int, old(sc).input().len() - old(sc).at(), 5int,
{
    let ghost s = sc.input();
    let ghost pos = sc.at();
    proof {
        lemma_next_param(s, pos);
    }
    match sc.next_param() {
        Err(e) => Err(e),
        Ok(env) => {
            let ghost j = sc.at();
            let e = env.as_str();
            if str_eq(e, "align") || str_eq(e, "align*") || str_eq(e, "aligned") || str_eq(
                e,
                "equation",
            ) || str_eq(e, "equation*") || str_eq(e, "gather") || str_eq(e, "gather*") || str_eq(
                e,
                "gathered",
            ) || str_eq(e, "split") {
                tr_env_math(sc, e)
            } else if str_eq(e, "alignat") || str_eq(e, "alignat*") || str_eq(e, "alignedat") {
                proof {
                    lemma_next_param(s, j);
                }
                match sc.next_param() {
                    Err(er) => Err(er),
                    Ok(_n) => tr_env_math(sc, e),
                }
            } else if str_eq(e, "array") || str_eq(e, "darray") {
                proof {
                    lemma_next_param(s, j);
                }
                match sc.next_param() {
                    Err(_er) => {},
                    Ok(_n) => {},
                }
                tr_env_matrix(sc, e, "mat(delim: #none, ", ")")
            } else if str_eq(e, "matrix") {
                tr_env_matrix(sc, e, "mat(delim: #none, ", ")")
            } else if str_eq(e, "pmatrix") {
                tr_env_matrix(sc, e, "mat(delim: \"(\", ", ")")
            } else if str_eq(e, "bmatrix") {
                tr_env_matrix(sc, e, "mat(delim: \"[\", ", ")")
            } else if str_eq(e, "Bmatrix") {
                tr_env_matrix(sc, e, "mat(delim: \"{\", ", ")")
            } else if str_eq(e, "vmatrix") {
                tr_env_matrix(sc, e, "mat(delim: \"|\", ", ")")
            } else if str_eq(e, "Vmatrix") {
                tr_env_matrix(sc, e, "mat(delim: \"||\", ", ")")
            } else if str_eq(e, "matrix*") || str_eq(e, "pmatrix*") || str_eq(e, "bmatrix*")
                || str_eq(e, "Bmatrix*") || str_eq(e, "vmatrix*") || str_eq(e, "Vmatrix*") {
                proof {
                    lemma_np_optional(s, j);
                }
                sc.next_param_optional();
                if str_eq(e, "matrix*") {
                    tr_env_matrix(sc, e, "mat(delim: #none, ", ")")
                } else if str_eq(e, "pmatrix*") {
                    tr_env_matrix(sc, e, "mat(delim: \"(\", ", ")")
                } else if str_eq(e, "bmatrix*") {
                    tr_env_matrix(sc, e, "mat(delim: \"[\", ", ")")
                } else if str_eq(e, "Bmatrix*") {
                    tr_env_matrix(sc, e, "mat(delim: \"{\", ", ")")
                } else if str_eq(e, "vmatrix*") {
                    tr_env_matrix(sc, e, "mat(delim: \"|\", ", ")")
                } else {
                    tr_env_matrix(sc, e, "mat(delim: \"||\", ", ")")
                }
            } else if str_eq(e, "smallmatrix") {
                tr_env_matrix(sc, e, "inline(mat(delim: #none, ", "))")
            } else if str_eq(e, "cases") || str_eq(e, "dcases") {
                tr_env_cases(sc, e, "cases(")
            } else if str_eq(e, "rcases") {
                tr_env_cases(sc, e, "cases(reverse: #true, ")
            } else if str_eq(e, "CD") {
                let pat = env_end_pat(e);
                proof {
                    lemma_until_string(s, j, pat@);
                }
                let body = sc.until_string(pat.as_str());
                let mut f = String::from_str("CD(");
                f.append(body.as_str());
                f.append(")");
                assert(f@ =~= "CD("@ + body@ + ")"@);
                Ok(f)
            } else {
                Err(ScannerError::from_parts(
                    String::from_str("Unknown environment"),
                    sc.rest(),
                ))
            }
        },
    }
}

/// The word dispatch: every branch mirrors one arm of the table.
#[verifier::rlimit(60)]
fn step_word(sc: &mut Scanner, w: &str) -> (r: Result<String, ScannerError>)
    requires
        1 <= old(sc).at() <= old(sc).input().len(),
    ensures
        final(sc).input() == old(sc).input(),
        old(sc).at() <= final(sc).at() <= old(sc).input().len(),
        match r {
            Ok(f) => word_step(old(sc).input(), old(sc).at(), w@) == Ok::<
                (int, Seq<char>),
                TransErr,
            >((final(sc).at(), f@)),
            Err(e) => word_step(old(sc).input(), old(sc).at(), w@) == Err::<
                (int, Seq<char>),
                TransErr,
            >((e@.0, e@.1)),
        },
    decreases old(sc).input().len(), 1int, old(sc).input().len() - old(sc).at(), 10int,
{
    if let Some(t) = literal_entry(w) {
        return Ok(String::from_str(t));
    }
    if let Some(pair) = single_entry(w) {
        return tr_single(sc, pair.0, pair.1);
    }
    if let Some(pair) = double_entry(w) {
        return tr_double(sc, pair.0, pair.1);
    }
    if let Some(a) = accent_entry(w) {
        return tr_accent(sc, a);
    }
    step_custom(sc, w)
}

/// First half of the bespoke commands.
#[verifier::rlimit(60)]
fn step_custom(sc: &mut Scanner, w: &str) -> (r: Result<String, ScannerError>)
    requires
        1 <= old(sc).at() <= old(sc).input().len(),
    ensures
        final(sc).input() == old(sc).input(),
        old(sc).at() <= final(sc).at() <= old(sc).input().len(),
        match r {
            Ok(f) => custom_step(old(sc).input(), old(sc).at(), w@) == Ok::<
                (int, Seq<char>),
                TransErr,
            >((final(sc).at(), f@)),
            Err(e) => custom_step(old(sc).input(), old(sc).at(), w@) == Err::<
                (int, Seq<char>),
                TransErr,
            >((e@.0, e@.1)),
        },
    decreases old(sc).input().len(), 1int, old(sc).input().len() - old(sc).at(), 9int,
{
    if str_eq(w, "begin") {
        step_begin(sc)
    } else if str_eq(w, "boxed") {
        tr_wrap(
            sc,
            "#box(inset: (left: 3pt, right: 3pt), outset: (top: 3pt, bottom: 3pt), stroke: 0.5pt)[$",
            "$]",
        )
    } else if str_eq(w, "Bra") || str_eq(w, "bra") {
        tr_wrap(sc, "lr(angle.l ", " |)")
    } else if str_eq(w, "Braket") || str_eq(w, "braket") {
        tr_braket(sc)
    } else if str_eq(w, "char") {
        tr_char(sc)
    } else if str_eq(w, "colorbox") {
        tr_colorbox(sc)
    } else if str_eq(w, "fbox") {
        tr_text_wrap(
            sc,
            "#box(inset: (left: 3pt, right: 3pt), outset: (top: 3pt, bottom: 3pt))[$upright(",
            ")$]",
        )
    } else if str_eq(w, "fcolorbox") {
        tr_fcolorbox(sc)
    } else if str_eq(w, "hbox") || str_eq(w, "mathnormal") || str_eq(w, "mathop") {
        tr_wrap(sc, "", "")
    } else if str_eq(w, "hphantom") {
        tr_wrap(sc, "#box(height: 0pt, hide[$", "$])")
    } else if str_eq(w, "Ket") || str_eq(w, "ket") {
        tr_wrap(sc, "lr(| ", " angle.r)")
    } else if str_eq(w, "left") {
        tr_left(sc)
    } else if str_eq(w, "mathbin") || str_eq(w, "operatorname") {
        tr_esc_op(sc, "#math.op(\"", "\")")
    } else if str_eq(w, "operatorname*") || str_eq(w, "operatornamewithlimits") {
        tr_esc_op(sc, "#math.op(\"", "\", limits: true)")
    } else {
        step_custom2(sc, w)
    }
}

/// Second half of the bespoke commands, ending in the verbatim default.
#[verifier::rlimit(100)]
fn step_custom2(sc: &mut Scanner, w: &str) -> (r: Result<String, ScannerError>)
    requires
        1 <= old(sc).at() <= old(sc).input().len(),
    ensures
        final(sc).input() == old(sc).input(),
        old(sc).at() <= final(sc).at() <= old(sc).input().len(),
        match r {
            Ok(f) => custom_step2(old(sc).input(), old(sc).at(), w@) == Ok::<
                (int, Seq<char>),
                TransErr,
            >((final(sc).at(), f@)),
            Err(e) => custom_step2(old(sc).input(), old(sc).at(), w@) == Err::<
                (int, Seq<char>),
                TransErr,
            >((e@.0, e@.1)),
        },
    decreases old(sc).input().len(), 1int, old(sc).input().len() - old(sc).at(), 8int,
{
    if str_eq(w, "mathclose") {
        tr_wrap(sc, "#h(0pt) ", "")
    } else if str_eq(w, "mathopen") {
        tr_wrap(sc, "", " #h(0pt)")
    } else if str_eq(w, "overbrace") {
        tr_brace(sc, "overbrace", '^')
    } else if str_eq(w, "underbrace") {
        tr_brace(sc, "underbrace", '_')
    } else if str_eq(w, "phantom") {
        tr_wrap(sc, "#hide[$", "$]")
    } else if str_eq(w, "raisebox") {
        tr_raisebox(sc)
    } else if str_eq(w, "rule") {
        tr_rule(sc)
    } else if str_eq(w, "Set") || str_eq(w, "set") {
        tr_wrap(sc, "{", "}")
    } else if str_eq(w, "sqrt") {
        tr_sqrt(sc)
    } else if str_eq(w, "text") || str_eq(w, "textmd") || str_eq(w, "textnormal") || str_eq(
        w,
        "textrm",
    ) || str_eq(w, "textup") {
        tr_text_wrap(sc, "#[", "]")
    } else if str_eq(w, "textbf") {
        tr_text_wrap(sc, "bold(#[", "])")
    } else if str_eq(w, "textcolor") {
        tr_textcolor(sc)
    } else if str_eq(w, "textit") {
        tr_text_wrap(sc, "italic(#[", "])")
    } else if str_eq(w, "textsf") {
        tr_text_wrap(sc, "sans(#[", "])")
    } else if str_eq(w, "texttt") {
        tr_text_wrap(sc, "mono(#[", "])")
    } else if str_eq(w, "vphantom") {
        tr_wrap(sc, "#box(width: 0pt, hide[$", "$])")
    } else {
        Ok(String::from_str(w))
    }
}

/// Math-mode entry point: drives the scanner over the whole input,
/// dispatching every token and applying the spacing rule between the
/// fragments; its result is exactly what the translation spec says.
#[verifier::loop_isolation(false)]
#[verifier::rlimit(100)]
pub fn latex_to_typst(latex: &str) -> (r: Result<String, ScannerError>)
    ensures
        match r {
            Ok(t) => lt_spec(latex@) == Ok::<Seq<char>, TransErr>(t@),
            Err(e) => lt_spec(latex@) == Err::<Seq<char>, TransErr>((e@.0, e@.1)),
        },
    decreases latex@.len(), 3int, 0int, 0int,
{
    let ghost s = latex@;
    let mut sc = Scanner::new(latex);
    let mut out = String::new();
    let mut done = false;
    while !done
        invariant
            sc.input() == s,
            0 <= sc.at() <= s.len(),
            lt_spec(s) == lt_loop(s, sc.at(), out@),
            done ==> sc.at() >= s.len(),
        decreases s.len() - sc.at() + (if done {
            0int
        } else {
            1int
        }),
    {
        let ghost i = sc.at();
        let ghost acc0 = out@;
        match sc.next() {
            None => {
                done = true;
            },
            Some(c) => {
                let mut frag: String = String::new();
                if c == '\\' {
                    proof {
                        lemma_next_word(s, i + 1);
                    }
                    let w = sc.next_word();
                    let ghost k = sc.at();
                    if w.as_str().unicode_len() == 0 {
                        match sc.next() {
                            None => {
                                proof {
                                    assert(math_step(s, i) == Err::<(int, Seq<char>), TransErr>(
                                        ("Unexpected end of input"@, Seq::empty()),
                                    ));
                                }
                                return Err(ScannerError::from_parts(
                                    String::from_str("Unexpected end of input"),
                                    String::new(),
                                ));
                            },
                            Some(c2) => {
                                if c2 == '\'' || c2 == '"' || c2 == '.' || c2 == '`' || c2 == '='
                                    || c2 == '~' || c2 == '^' {
                                    let func: &str = if c2 == '\'' {
                                        "acute"
                                    } else if c2 == '"' {
                                        "dot.double"
                                    } else if c2 == '.' {
                                        "dot"
                                    } else if c2 == '`' {
                                        "grave"
                                    } else if c2 == '=' {
                                        "macron"
                                    } else if c2 == '~' {
                                        "tilde"
                                    } else {
                                        "hat"
                                    };
                                    match tr_single(&mut sc, func, None) {
                                        Err(e) => {
                                            return Err(e);
                                        },
                                        Ok(f) => {
                                            frag = f;
                                        },
                                    }
                                } else if c2 == '_' || c2 == '&' || c2 == '#' {
                                    frag = two_chars('\\', c2);
                                } else if c2 == '!' {
                                    frag = String::from_str("#h(-1em/6)");
                                } else if c2 == ' ' {
                                    frag = String::from_str("space");
                                } else if c2 == '(' || c2 == ')' {
                                    frag = String::new();
                                } else if c2 == ',' {
                                    frag = String::from_str("space.sixth");
                                } else if c2 == ':' || c2 == '>' {
                                    frag = String::from_str("space.med");
                                } else if c2 == ';' {
                                    frag = String::from_str("#h(5em/18)");
                                } else if c2 == '|' {
                                    frag = String::from_str("||");
                                } else if c2 == '\\' {
                                    frag = String::from_str("\\");
                                } else {
                                    frag = one_char(c2);
                                }
                            },
                        }
                    } else {
                        match step_word(&mut sc, w.as_str()) {
                            Err(e) => {
                                return Err(e);
                            },
                            Ok(f) => {
                                frag = f;
                            },
                        }
                    }
                } else if c == '_' || c == '^' {
                    match sc.peek() {
                        None => {
                            proof {
                                assert(math_step(s, i) == Err::<(int, Seq<char>), TransErr>(
                                    ("Unexpected end of input"@, Seq::empty()),
                                ));
                            }
                            return Err(ScannerError::from_parts(
                                String::from_str("Unexpected end of input"),
                                String::new(),
                            ));
                        },
                        Some(nc) => {
                            if nc == '{' {
                                proof {
                                    lemma_next_param(s, i + 1);
                                }
                                match sc.next_param() {
                                    Err(e) => {
                                        return Err(e);
                                    },
                                    Ok(p) => {
                                        match latex_to_typst(p.as_str()) {
                                            Err(e) => {
                                                return Err(e);
                                            },
                                            Ok(t) => {
                                                let mut f = one_char(c);
                                                f.append("(");
                                                f.append(t.as_str());
                                                f.append(")");
                                                assert(f@ =~= seq![c] + "("@ + t@ + ")"@);
                                                frag = f;
                                            },
                                        }
                                    },
                                }
                            } else {
                                sc.next();
                                frag = two_chars(c, nc);
                            }
                        },
                    }
                } else if c == '%' {
                    proof {
                        lemma_until_chars(s, i + 1, "\n"@);
                    }
                    let cmt = sc.until_chars("\n");
                    let mut f = String::from_str("//");
                    f.append(cmt.as_str());
                    f.append("\n");
                    assert(f@ =~= "//"@ + cmt@ + "\n"@);
                    frag = f;
                } else if c == '~' {
                    frag = String::from_str("space.nobreak");
                } else if c == '/' || c == '"' {
                    frag = two_chars('\\', c);
                } else if c == '{' || c == '}' {
                    frag = String::new();
                } else {
                    frag = one_char(c);
                }
                proof {
                    assert(math_step(s, i) == Ok::<(int, Seq<char>), TransErr>(
                        (sc.at(), frag@),
                    ));
                }
                smash_push(&mut out, frag.as_str());
            },
        }
    }
    Ok(out)
}

/// Text-mode entry point: the parallel command table, with embedded
/// dollar-delimited math routed back through the math translator; an
/// unknown text-mode command is a hard failure, unlike the math-mode
/// pass-through.
#[verifier::loop_isolation(false)]
#[verifier::rlimit(100)]
pub fn text_to_typst(text: &str) -> (r: Result<String, ScannerError>)
    ensures
        match r {
            Ok(t) => text_spec(text@) == Ok::<Seq<char>, TransErr>(t@),
            Err(e) => text_spec(text@) == Err::<Seq<char>, TransErr>((e@.0, e@.1)),
        },
    decreases text@.len(), 3int, 0int, 1int,
{
    let ghost s = text@;
    let mut sc = Scanner::new(text);
    let mut out = String::new();
    let mut done = false;
    while !done
        invariant
            sc.input() == s,
            0 <= sc.at() <= s.len(),
            text_spec(s) == text_loop(s, sc.at(), out@),
            done ==> sc.at() >= s.len(),
        decreases s.len() - sc.at() + (if done {
            0int
        } else {
            1int
        }),
    {
        let ghost i = sc.at();
        let ghost acc0 = out@;
        match sc.next() {
            None => {
                done = true;
            },
            Some(c) => {
                if c == '\\' {
                    proof {
                        lemma_next_word(s, i + 1);
                    }
                    let w = sc.next_word();
                    if let Some(t) = text_entry(w.as_str()) {
                        out.append(t);
                    } else if w.as_str().unicode_len() == 0 {
                    } else {
                        return Err(ScannerError::from_parts(
                            String::from_str("Unknown command in text mode"),
                            sc.rest(),
                        ));
                    }
                } else if c == '$' {
                    proof {
                        lemma_until_chars(s, i + 1, "$"@);
                    }
                    let math = sc.until_chars("$");
                    match latex_to_typst(math.as_str()) {
                        Err(e) => {
                            return Err(e);
                        },
                        Ok(t) => {
                            let ghost before = out@;
                            out.append("$");
                            out.append(t.as_str());
                            out.append("$");
                            assert(out@ =~= before + "$"@ + t@ + "$"@);
                        },
                    }
                } else {
                    out.push(c);
                }
            },
        }
    }
    Ok(out)
}

} // verus!
