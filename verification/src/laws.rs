//! Properties of the translation, stated once and proved against the same
//! spec functions the executable contracts use.

use vstd::prelude::*;

use crate::chars::{spec_is_digit, unicode_alpha};
use crate::scanner::{brace_end, next_param_spec, ws_end};
use crate::translate::{
    double_frag, find_ch, lt_spec, merge_cells, smash, split_amp, text_spec, TransErr,
};

verus! {

/// The translation is a pure function of its input: equal inputs always
/// give equal results, in math mode and in text mode alike.
pub proof fn lemma_translation_deterministic(a: Seq<char>, b: Seq<char>)
    requires
        a == b,
    ensures
        lt_spec(a) == lt_spec(b),
        text_spec(a) == text_spec(b),
{
}

/// Every double-argument wrapper translates its arguments left to right:
/// the first captured argument's translation stands before the second's in
/// the fragment, separated by a comma.
pub proof fn lemma_double_argument_order(
    s: Seq<char>,
    pos: int,
    fname: Seq<char>,
    wrap: Option<Seq<char>>,
    j1: int,
    p1: Seq<char>,
    j2: int,
    p2: Seq<char>,
    t1: Seq<char>,
    t2: Seq<char>,
)
    requires
        0 <= pos <= s.len(),
        next_param_spec(s, pos) == Ok::<_, Seq<char>>((j1, p1)),
        pos < j1 <= s.len(),
        p1.len() < s.len(),
        next_param_spec(s, j1) == Ok::<_, Seq<char>>((j2, p2)),
        p2.len() < s.len(),
        lt_spec(p1) == Ok::<_, TransErr>(t1),
        lt_spec(p2) == Ok::<_, TransErr>(t2),
    ensures
        double_frag(s, pos, fname, wrap) matches Ok(r) && r.0 == j2 && r.1 == (match wrap {
            Some(x) => x + "("@ + (fname + "("@ + t1 + ", "@ + t2 + ")"@) + ")"@,
            None => fname + "("@ + t1 + ", "@ + t2 + ")"@,
        }),
{
}

// ---------------------------------------------------------------------------
// balanced brace groups
// ---------------------------------------------------------------------------

/// Scanning `w` from open depth `d` never meets a closing brace that the
/// text itself has not opened.
pub open spec fn scan_ok(w: Seq<char>, d: int) -> bool
    decreases w.len(),
{
    if w.len() == 0 {
        true
    } else if w.first() == '{' {
        scan_ok(w.drop_first(), d + 1)
    } else if w.first() == '}' {
        d > 0 && scan_ok(w.drop_first(), d - 1)
    } else {
        scan_ok(w.drop_first(), d)
    }
}

/// The net number of brace groups `w` opens.
pub open spec fn brace_delta(w: Seq<char>) -> int
    decreases w.len(),
{
    if w.len() == 0 {
        0
    } else {
        (if w.first() == '{' {
            1
        } else if w.first() == '}' {
            -1
        } else {
            0
        }) + brace_delta(w.drop_first())
    }
}

/// `w` opens and closes its brace groups in matching pairs.
pub open spec fn balanced(w: Seq<char>) -> bool {
    scan_ok(w, 0) && brace_delta(w) == 0
}

/// The capture scan walks straight over a stretch whose own braces never
/// close the surrounding group, ending at the depth the stretch leaves.
proof fn lemma_brace_end_walk(s: Seq<char>, i: int, d: int, w: Seq<char>)
    requires
        0 <= i,
        i + w.len() as int <= s.len(),
        s.subrange(i, i + w.len() as int) == w,
        d >= 0,
        scan_ok(w, d),
    ensures
        brace_end(s, i, d) == brace_end(s, i + w.len() as int, d + brace_delta(w)),
    decreases w.len(),
{
    if w.len() > 0 {
        assert(s[i] == w.first());
        assert(s.subrange(i + 1, i + 1 + w.drop_first().len() as int) =~= w.drop_first());
        if w.first() == '{' {
            lemma_brace_end_walk(s, i + 1, d + 1, w.drop_first());
        } else if w.first() == '}' {
            lemma_brace_end_walk(s, i + 1, d - 1, w.drop_first());
        } else {
            lemma_brace_end_walk(s, i + 1, d, w.drop_first());
        }
    }
}

/// A balanced brace group is captured verbatim: reading an argument from
/// `{` + `w` + `}` + anything hands back exactly `w`, nested braces kept
/// as literal text, and stops at the first brace not matched inside `w`.
pub proof fn lemma_balanced_group_capture(w: Seq<char>, rest: Seq<char>)
    requires
        balanced(w),
    ensures
        next_param_spec(seq!['{'] + w + seq!['}'] + rest, 0) == Ok::<_, Seq<char>>(
            (w.len() as int + 2, w),
        ),
{
    let s = seq!['{'] + w + seq!['}'] + rest;
    assert(s[0] == '{');
    assert(!crate::chars::spec_is_ws('{'));
    assert(ws_end(s, 0) == 0);
    assert(s.subrange(1, 1 + w.len() as int) =~= w);
    lemma_brace_end_walk(s, 1, 0, w);
    assert(s[1 + w.len() as int] == '}');
    assert(brace_end(s, 1 + w.len() as int, 0) == 1 + w.len() as int);
    assert(s.subrange(1, 1 + w.len() as int) =~= w);
    assert(brace_end(s, 1, 0) == 1 + w.len() as int);
    assert((1 + w.len() as int) < s.len());
}

// ---------------------------------------------------------------------------
// the escaped-ampersand repair
// ---------------------------------------------------------------------------

/// The ampersand scan walks straight over a stretch that holds none.
proof fn lemma_find_ch_walk(s: Seq<char>, i: int, c: char, w: Seq<char>)
    requires
        0 <= i,
        i + w.len() as int <= s.len(),
        s.subrange(i, i + w.len() as int) == w,
        !w.contains(c),
    ensures
        find_ch(s, i, c) == find_ch(s, i + w.len() as int, c),
    decreases w.len(),
{
    if w.len() > 0 {
        assert(s[i] == w.first());
        if s[i] == c {
            assert(w[0] == c);
            assert(w.contains(c));
        }
        assert(s.subrange(i + 1, i + 1 + w.drop_first().len() as int) =~= w.drop_first());
        assert(forall|k: int| 0 <= k < w.drop_first().len() ==> w.drop_first()[k] == w[k + 1]);
        assert(!w.drop_first().contains(c)) by {
            if w.drop_first().contains(c) {
                let x = choose|x: int|
                    0 <= x < w.drop_first().len() && w.drop_first()[x] == c;
                assert(w[x + 1] == c);
                assert(w.contains(c));
            }
        }
        lemma_find_ch_walk(s, i + 1, c, w.drop_first());
    }
}

/// A row holding an escaped ampersand — a backslash, then the ampersand
/// the naive cell split breaks on — is split and re-merged into a single
/// cell with the ampersand put back where it stood: the escape survives
/// the grid split unchanged.
pub proof fn lemma_escaped_ampersand_remerge(a: Seq<char>, b: Seq<char>)
    requires
        !a.contains('&'),
        !b.contains('&'),
    ensures
        merge_cells(split_amp(a + seq!['\\', '&'] + b)) == seq![a + seq!['\\', '&'] + b],
{
    let r = a + seq!['\\', '&'] + b;
    assert(r.subrange(0, a.len() as int) =~= a);
    lemma_find_ch_walk(r, 0, '&', a);
    assert(r[a.len() as int] == '\\');
    assert(r[a.len() as int + 1] == '&');
    assert(find_ch(r, a.len() as int + 1, '&') == a.len() as int + 1);
    assert(find_ch(r, a.len() as int, '&') == a.len() as int + 1);
    let j = a.len() as int + 1;
    assert(find_ch(r, 0, '&') == j);
    let head = r.subrange(0, j);
    assert(head =~= a + seq!['\\']);
    let tail = r.subrange(j + 1, r.len() as int);
    assert(tail =~= b);
    assert(b.subrange(0, b.len() as int) =~= b);
    lemma_find_ch_walk(b, 0, '&', b);
    assert(find_ch(b, 0, '&') == b.len() as int);
    assert(split_amp(b) == seq![b]);
    assert(split_amp(r) == seq![head] + seq![b]);
    let cells = seq![head] + seq![b];
    assert(cells[0] == head);
    assert(cells[1] == b);
    assert(cells.len() == 2);
    assert(cells[0].len() > 0 && cells[0].last() == '\\');
    assert(merge_cells(Seq::<Seq<char>>::empty()) =~~= Seq::<Seq<char>>::empty());
    assert(cells.subrange(2, 2) =~= Seq::<Seq<char>>::empty());
    assert(merge_cells(cells) =~~= seq![head + seq!['&'] + b]);
    assert(head + seq!['&'] + b =~= r);
}

// ---------------------------------------------------------------------------
// the spacing rule
// ---------------------------------------------------------------------------

/// Between a fragment ending in a letter and one opening with a letter or
/// an ASCII digit, exactly one space is inserted; in every other touching
/// of fragments nothing is inserted.
pub proof fn lemma_spacing_rule(acc: Seq<char>, frag: Seq<char>)
    requires
        acc.len() > 0,
        frag.len() > 0,
    ensures
        (unicode_alpha(acc.last()) && (unicode_alpha(frag.first()) || spec_is_digit(
            frag.first(),
        ))) ==> smash(acc, frag) == acc + seq![' '] + frag,
        !unicode_alpha(acc.last()) ==> smash(acc, frag) == acc + frag,
        (!unicode_alpha(frag.first()) && !spec_is_digit(frag.first())) ==> smash(acc, frag)
            == acc + frag,
{
}

} // verus!
