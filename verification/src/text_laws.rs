//! What becomes of white space, and of numbers in columns.

use crate::text::{
    left_aligned, lemma_space_len, right_aligned, space_len, trimmed, trimmed_len,
    white_space, word_len, words,
};
use vstd::prelude::*;

verus! {

/// A text with no white space at its ends.
pub open spec fn tight(t: Seq<char>) -> bool {
    t.len() > 0 && !white_space(t[0]) && !white_space(t.last())
}

/// White space alone.
pub open spec fn blank(t: Seq<char>) -> bool {
    forall|i: int| 0 <= i < t.len() ==> white_space(#[trigger] t[i])
}

/// White space before a text is counted.
pub proof fn lemma_space_before(a: Seq<char>, t: Seq<char>)
    requires
        blank(a),
        t.len() > 0,
        !white_space(t[0]),
    ensures
        space_len(a + t) == a.len(),
    decreases a.len(),
{
    if a.len() == 0 {
        assert(a + t =~= t);
    } else {
        assert((a + t).skip(1) =~= a.skip(1) + t);
        assert(blank(a.skip(1)));
        lemma_space_before(a.skip(1), t);
        assert((a + t)[0] == a[0]);
    }
}

/// White space behind a text is not part of it.
pub proof fn lemma_space_behind(t: Seq<char>, b: Seq<char>)
    requires
        blank(b),
        t.len() > 0,
        !white_space(t.last()),
    ensures
        trimmed_len(t + b) == t.len(),
    decreases b.len(),
{
    if b.len() == 0 {
        assert(t + b =~= t);
    } else {
        assert((t + b).drop_last() =~= t + b.drop_last());
        assert(blank(b.drop_last()));
        lemma_space_behind(t, b.drop_last());
        assert((t + b).last() == b[b.len() - 1]);
    }
}

/// White space around a text is trimmed away.
pub proof fn lemma_trimmed_between(a: Seq<char>, t: Seq<char>, b: Seq<char>)
    requires
        blank(a),
        blank(b),
        tight(t),
    ensures
        trimmed(a + t + b) == t,
{
    assert(a + t + b =~= a + (t + b));
    assert((t + b)[0] == t[0]);
    lemma_space_before(a, t + b);
    assert((a + (t + b)).skip(a.len() as int) =~= t + b);
    lemma_space_behind(t, b);
    assert((t + b).take(t.len() as int) =~= t);
}

/// Trimming takes the white space at both ends away and nothing else: what is left begins
/// and ends with something, and everything that is missing is white space.
pub proof fn law_trimming_takes_white_space(s: Seq<char>)
    ensures
        ({
            let t = trimmed(s);
            let a = space_len(s) as int;
            &&& t.len() == 0 || tight(t)
            &&& 0 <= a && a + t.len() <= s.len()
            &&& t == s.subrange(a, a + t.len())
            &&& blank(s.take(a))
            &&& blank(s.skip(a + t.len()))
        }),
{
    let a = space_len(s) as int;
    let u = s.skip(a);
    lemma_space_len(s);
    lemma_blank_before(s);
    lemma_blank_behind(u);
    let t = trimmed(s);
    assert(t =~= s.subrange(a, a + t.len()));
    assert(s.skip(a + t.len()) =~= u.skip(t.len() as int));
    if t.len() > 0 {
        assert(t[0] == s[a]);
        assert(t.last() == u[t.len() - 1]);
    }
}

proof fn lemma_blank_before(s: Seq<char>)
    ensures
        blank(s.take(space_len(s) as int)),
    decreases s.len(),
{
    lemma_space_len(s);
    if s.len() > 0 && white_space(s[0]) {
        let r = s.skip(1);
        lemma_space_len(r);
        lemma_blank_before(r);
        let t = s.take(space_len(s) as int);
        assert forall|i: int| 0 <= i < t.len() implies white_space(#[trigger] t[i]) by {
            if i > 0 {
                assert(r.take(space_len(r) as int)[i - 1] == t[i]);
            }
        }
    }
}

proof fn lemma_blank_behind(s: Seq<char>)
    ensures
        trimmed_len(s) <= s.len(),
        blank(s.skip(trimmed_len(s) as int)),
        trimmed_len(s) > 0 ==> !white_space(s[trimmed_len(s) - 1]),
    decreases s.len(),
{
    if s.len() > 0 && white_space(s.last()) {
        let r = s.drop_last();
        lemma_blank_behind(r);
        let k = trimmed_len(s) as int;
        let t = s.skip(k);
        assert forall|i: int| 0 <= i < t.len() implies white_space(#[trigger] t[i]) by {
            if i < t.len() - 1 {
                assert(r.skip(k)[i] == t[i]);
            }
        }
    }
}

/// A word: some characters, none of them white space.
pub open spec fn is_word(w: Seq<char>) -> bool {
    w.len() > 0 && forall|i: int| 0 <= i < w.len() ==> !white_space(#[trigger] w[i])
}

/// Words with a gap before each of them and behind the last.
pub open spec fn spread(ws: Seq<Seq<char>>, gap: Seq<char>) -> Seq<char>
    decreases ws.len(),
{
    if ws.len() == 0 {
        gap
    } else {
        gap + ws[0] + spread(ws.skip(1), gap)
    }
}

/// The words of a text are what white space separates, whatever it is and however much.
pub proof fn law_white_space_separates_words(ws: Seq<Seq<char>>, gap: Seq<char>)
    requires
        gap.len() > 0,
        blank(gap),
        forall|i: int| 0 <= i < ws.len() ==> is_word(#[trigger] ws[i]),
    ensures
        words(spread(ws, gap)) == ws,
    decreases ws.len(),
{
    let s = spread(ws, gap);
    if ws.len() == 0 {
        lemma_all_space(gap);
        assert(s.skip(space_len(s) as int).len() == 0);
        assert(words(s) =~= ws);
    } else {
        let w = ws[0];
        assert(is_word(w));
        let rest = ws.skip(1);
        assert forall|i: int| 0 <= i < rest.len() implies is_word(#[trigger] rest[i]) by {
            assert(rest[i] == ws[i + 1]);
        }
        let tail = spread(rest, gap);
        law_white_space_separates_words(rest, gap);
        assert(tail.len() > 0 && tail[0] == gap[0] && white_space(gap[0]));
        assert(s =~= gap + (w + tail));
        assert((w + tail)[0] == w[0] && !white_space(w[0]));
        lemma_space_before(gap, w + tail);
        let t = s.skip(gap.len() as int);
        assert(t =~= w + tail);
        lemma_word_before(w, tail);
        assert(t.take(w.len() as int) =~= w);
        assert(t.skip(w.len() as int) =~= tail);
        assert(seq![w] + rest =~= ws);
    }
}

proof fn lemma_all_space(s: Seq<char>)
    requires
        blank(s),
    ensures
        space_len(s) == s.len(),
    decreases s.len(),
{
    if s.len() > 0 {
        assert(white_space(s[0]));
        assert(blank(s.skip(1)));
        lemma_all_space(s.skip(1));
    }
}

/// A word ends where white space follows it.
pub proof fn lemma_word_before(w: Seq<char>, t: Seq<char>)
    requires
        forall|i: int| 0 <= i < w.len() ==> !white_space(#[trigger] w[i]),
        t.len() > 0,
        white_space(t[0]),
    ensures
        word_len(w + t) == w.len(),
    decreases w.len(),
{
    if w.len() == 0 {
        assert(w + t =~= t);
    } else {
        assert((w + t)[0] == w[0]);
        assert((w + t).skip(1) =~= w.skip(1) + t);
        lemma_word_before(w.skip(1), t);
    }
}

/// In a column, a text is filled up to the width and never cut off: on the left where it is
/// aligned to the right, and on the right where it is aligned to the left.
pub proof fn law_columns_line_up(t: Seq<char>, c: char, width: int)
    requires
        width >= 0,
    ensures
        ({
            let r = right_aligned(t, c, width);
            let l = left_aligned(t, width);
            let n = if t.len() < width {
                width
            } else {
                t.len() as int
            };
            &&& r.len() == n && l.len() == n
            &&& r.skip(n - t.len()) == t
            &&& l.take(t.len() as int) == t
            &&& forall|i: int| 0 <= i < n - t.len() ==> #[trigger] r[i] == c
            &&& forall|i: int| t.len() <= i < n ==> #[trigger] l[i] == ' '
        }),
{
    let r = right_aligned(t, c, width);
    let l = left_aligned(t, width);
    assert(r.skip(r.len() - t.len()) =~= t);
    assert(l.take(t.len() as int) =~= t);
}

} // verus!
