//! Taking command lines apart.

use crate::text::{contents, skip_word, trim, trimmed, word_len};
use vstd::prelude::*;

verus! {

/// The value of a digit in a base up to 10; None for other characters.
pub open spec fn digit_value(c: char, base: nat) -> Option<nat> {
    let d = c as int - 48;
    if 0 <= d < base {
        Some(d as nat)
    } else {
        None
    }
}

/// The number that digits in a base make; None if one of them is no digit.
pub open spec fn digits_value(s: Seq<char>, base: nat) -> Option<nat>
    decreases s.len(),
{
    if s.len() == 0 {
        Some(0)
    } else {
        match (digits_value(s.drop_last(), base), digit_value(s.last(), base)) {
            (Some(v), Some(d)) => Some(v * base + d),
            _ => None,
        }
    }
}

/// The number that a text is: digits, perhaps behind a plus sign, and no more
/// than `max`.
pub open spec fn number_s(s: Seq<char>, base: nat, max: nat) -> Option<nat> {
    let t = if s.len() > 0 && s[0] == '+' {
        s.skip(1)
    } else {
        s
    };
    if t.len() == 0 {
        None
    } else {
        match digits_value(t, base) {
            Some(v) => if v <= max {
                Some(v)
            } else {
                None
            },
            None => None,
        }
    }
}

proof fn lemma_digits_prefix(s: Seq<char>, base: nat, k: int, max: nat)
    requires
        base >= 2,
        0 <= k <= s.len(),
    ensures
        digits_value(s.take(k), base) is None ==> digits_value(s, base) is None,
        digits_value(s.take(k), base) matches Some(v) && v > max ==> (digits_value(
            s,
            base,
        ) matches Some(w) ==> w > max),
    decreases s.len() - k,
{
    if k == s.len() {
        assert(s.take(k) =~= s);
    } else {
        let t = s.take(k + 1);
        assert(t.drop_last() =~= s.take(k));
        if digits_value(s.take(k), base) is Some {
            let v = digits_value(s.take(k), base)->Some_0;
            assert(v * base >= v) by (nonlinear_arith)
                requires
                    base >= 2,
                    v >= 0,
            ;
        }
        lemma_digits_prefix(s, base, k + 1, max);
    }
}

/// Reads a number.
pub fn parse_number(s: &str, base: u64, max: u64) -> (r: Option<u64>)
    requires
        2 <= base <= 10,
    ensures
        match r {
            Some(v) => number_s(s@, base as nat, max as nat) == Some(v as nat),
            None => number_s(s@, base as nat, max as nat) is None,
        },
{
    let n: usize = s.unicode_len();
    let from: usize = if n > 0 && s.get_char(0) == '+' {
        1
    } else {
        0
    };
    let ghost t = if s@.len() > 0 && s@[0] == '+' {
        s@.skip(1)
    } else {
        s@
    };
    assert(t =~= s@.skip(from as int));
    if from == n {
        return None;
    }
    let mut v: u64 = 0;
    let mut i: usize = from;
    assert(t.take(0) =~= Seq::empty());
    while i < n
        invariant
            n == s@.len(),
            from <= i <= n,
            2 <= base <= 10,
            t == s@.skip(from as int),
            t.len() > 0,
            t == (if s@.len() > 0 && s@[0] == '+' {
                s@.skip(1)
            } else {
                s@
            }),
            digits_value(t.take(i - from), base as nat) == Some(v as nat),
            v <= max,
        decreases n - i,
    {
        let c: char = s.get_char(i);
        assert(t.take(i - from + 1).drop_last() =~= t.take(i - from));
        assert(t.take(i - from + 1).last() == c);
        if (c as u32) < 48 || (c as u32) - 48 >= base as u32 {
            proof {
                lemma_digits_prefix(t, base as nat, i - from + 1, max as nat);
            }
            return None;
        }
        let d: u64 = (c as u32 - 48) as u64;
        assert(0 <= v * base <= 10 * u64::MAX) by (nonlinear_arith)
            requires
                0 <= v <= u64::MAX,
                0 <= base <= 10,
        ;
        let next: u128 = v as u128 * base as u128 + d as u128;
        if next > max as u128 {
            proof {
                lemma_digits_prefix(t, base as nat, i - from + 1, max as nat);
            }
            return None;
        }
        v = next as u64;
        i = i + 1;
    }
    assert(t.take(t.len() as int) =~= t);
    Some(v)
}

/// Where a character is first; the length if it is nowhere.
pub open spec fn find_char(s: Seq<char>, c: char) -> int
    decreases s.len(),
{
    if s.len() == 0 || s[0] == c {
        0
    } else {
        1 + find_char(s.skip(1), c)
    }
}

/// A character is found within the text, or at its end.
pub proof fn lemma_find_char(s: Seq<char>, c: char)
    ensures
        0 <= find_char(s, c) <= s.len(),
        find_char(s, c) < s.len() ==> s[find_char(s, c)] == c,
    decreases s.len(),
{
    if s.len() > 0 && s[0] != c {
        lemma_find_char(s.skip(1), c);
    }
}

/// Finds a character from `from` on.
pub fn find_from(s: &str, c: char, from: usize) -> (r: usize)
    requires
        from <= s@.len(),
    ensures
        r == from + find_char(s@.skip(from as int), c),
        from <= r <= s@.len(),
        r < s@.len() ==> s@[r as int] == c,
{
    let n: usize = s.unicode_len();
    let mut i: usize = from;
    while i < n
        invariant
            n == s@.len(),
            from <= i <= n,
            i + find_char(s@.skip(i as int), c) == from + find_char(s@.skip(from as int), c),
        ensures
            from <= i <= n,
            i == from + find_char(s@.skip(from as int), c),
            i < n ==> s@[i as int] == c,
        decreases n - i,
    {
        assert(s@.skip(i as int).skip(1) =~= s@.skip(i + 1));
        if s.get_char(i) == c {
            break;
        }
        i = i + 1;
    }
    i
}

/// The lines of a text. Each line ends at a line feed, and a carriage return
/// before that is not part of it; what follows the last line feed is a line only
/// if it is not empty.
pub open spec fn lines(s: Seq<char>) -> Seq<Seq<char>>
    decreases s.len(),
{
    let k = find_char(s, '\n');
    if s.len() == 0 {
        Seq::empty()
    } else if k >= s.len() {
        seq![s]
    } else {
        proof {
            lemma_find_char(s, '\n');
        }
        seq![without_cr(s.take(k))] + lines(s.skip(k + 1))
    }
}

/// A line without a carriage return at its end.
pub open spec fn without_cr(s: Seq<char>) -> Seq<char> {
    if s.len() > 0 && s.last() == '\r' {
        s.drop_last()
    } else {
        s
    }
}

/// The lines of a text.
pub fn split_lines(s: &str) -> (r: Vec<String>)
    ensures
        contents(r@) == lines(s@),
{
    let n: usize = s.unicode_len();
    let mut r: Vec<String> = Vec::new();
    let mut i: usize = 0;
    assert(s@.skip(0) =~= s@);
    assert(contents(r@) + lines(s@) =~= lines(s@));
    while i < n
        invariant
            n == s@.len(),
            i <= n,
            contents(r@) + lines(s@.skip(i as int)) == lines(s@),
        decreases n - i,
    {
        let ghost rest = s@.skip(i as int);
        let ghost before = contents(r@);
        let k: usize = find_from(s, '\n', i);
        let mut to: usize = k;
        if k < n && to > i && s.get_char(to - 1) == '\r' {
            to = to - 1;
        }
        let line = s.substring_char(i, to).to_owned();
        proof {
            assert(rest.take((k - i) as int) =~= s@.subrange(i as int, k as int));
            if k < n {
                assert(line@ =~= without_cr(rest.take((k - i) as int)));
                assert(rest.skip(k - i + 1) =~= s@.skip(k + 1));
            } else {
                assert(line@ =~= rest);
            }
        }
        r.push(line);
        assert(contents(r@) =~= before.push(line@));
        if k == n {
            assert(lines(rest) =~= seq![line@]);
            i = n;
            assert(s@.skip(i as int) =~= Seq::empty());
            assert(contents(r@) + lines(s@.skip(i as int)) =~= before + lines(rest));
        } else {
            i = k + 1;
            assert(lines(rest) == seq![line@] + lines(s@.skip(i as int)));
            assert(contents(r@) + lines(s@.skip(i as int)) =~= before + lines(rest));
        }
    }
    assert(s@.skip(i as int) =~= Seq::empty());
    assert(contents(r@) =~= lines(s@));
    r
}

/// Whether a text occurs in another.
pub open spec fn occurs(s: Seq<char>, pat: Seq<char>) -> bool {
    exists|i: int|
        0 <= i <= s.len() - pat.len() && #[trigger] s.subrange(i, i + pat.len()) == pat
}

/// Whether a text has another at a position.
fn has_at(s: &str, pat: &str, at: usize) -> (r: bool)
    requires
        at + pat@.len() <= s@.len(),
    ensures
        r == (s@.subrange(at as int, at + pat@.len()) == pat@),
{
    let m: usize = pat.unicode_len();
    let n: usize = s.unicode_len();
    let ghost part = s@.subrange(at as int, at + pat@.len());
    let mut i: usize = 0;
    while i < m
        invariant
            m == pat@.len(),
            n == s@.len(),
            at + m <= n,
            i <= m,
            part == s@.subrange(at as int, at + pat@.len()),
            forall|j: int| 0 <= j < i ==> part[j] == pat@[j],
        decreases m - i,
    {
        if s.get_char(at + i) != pat.get_char(i) {
            assert(part[i as int] != pat@[i as int]);
            return false;
        }
        i = i + 1;
    }
    assert(part =~= pat@);
    true
}

/// Whether a text occurs in another.
pub fn text_contains(s: &str, pat: &str) -> (r: bool)
    ensures
        r == occurs(s@, pat@),
{
    let n: usize = s.unicode_len();
    let m: usize = pat.unicode_len();
    if m > n {
        return false;
    }
    let mut i: usize = 0;
    while i <= n - m
        invariant
            n == s@.len(),
            m == pat@.len(),
            m <= n,
            i <= n - m + 1,
            forall|j: int| 0 <= j < i ==> #[trigger] s@.subrange(j, j + m) != pat@,
        decreases n - m + 1 - i,
    {
        if has_at(s, pat, i) {
            return true;
        }
        if i == n - m {
            return false;
        }
        i = i + 1;
    }
    false
}

/// What comes before the first white space character, and what comes after it.
pub open spec fn cut(s: Seq<char>) -> (Seq<char>, Option<Seq<char>>) {
    let k = word_len(s) as int;
    (
        s.take(k),
        if k < s.len() {
            Some(s.skip(k + 1))
        } else {
            None
        },
    )
}

/// Cuts a text at its first white space character.
pub fn cut_at_space(s: &str) -> (r: (&str, Option<&str>))
    ensures
        r.0@ == cut(s@).0,
        match r.1 {
            Some(t) => cut(s@).1 == Some(t@),
            None => cut(s@).1 is None,
        },
{
    let n: usize = s.unicode_len();
    assert(s@.skip(0) =~= s@);
    let k: usize = skip_word(s, 0);
    let first = s.substring_char(0, k);
    assert(first@ =~= s@.take(k as int));
    if k < n {
        let rest = s.substring_char(k + 1, n);
        assert(rest@ =~= s@.skip(k + 1));
        (first, Some(rest))
    } else {
        (first, None)
    }
}

/// A command line: the stages of its pipeline, and where its output goes.
pub enum LineView {
    Empty,
    NoTarget,
    EmptyStage,
    Run { stages: Seq<Seq<char>>, redirect: Option<Seq<char>> },
}

/// The parts of a text between bars, without white space at their ends.
pub open spec fn stages_of(s: Seq<char>) -> Seq<Seq<char>>
    decreases s.len(),
{
    let k = find_char(s, '|');
    if k >= s.len() {
        seq![trimmed(s)]
    } else {
        proof {
            lemma_find_char(s, '|');
        }
        seq![trimmed(s.take(k))] + stages_of(s.skip(k + 1))
    }
}

/// Whether one of some texts is empty.
pub open spec fn has_empty(v: Seq<Seq<char>>) -> bool {
    exists|i: int| 0 <= i < v.len() && (#[trigger] v[i]).len() == 0
}

/// Taking a command line apart: output goes to what follows the first `>`.
pub open spec fn line_s(s: Seq<char>) -> LineView {
    let k = find_char(s, '>');
    let redirect = if k < s.len() {
        Some(trimmed(s.skip(k + 1)))
    } else {
        None
    };
    let pipeline = if k < s.len() {
        trimmed(s.take(k as int))
    } else {
        s
    };
    let stages = stages_of(pipeline);
    if s.len() == 0 {
        LineView::Empty
    } else if redirect matches Some(t) && t.len() == 0 {
        LineView::NoTarget
    } else if has_empty(stages) {
        LineView::EmptyStage
    } else {
        LineView::Run { stages, redirect }
    }
}

/// A command line that was taken apart.
#[derive(Debug)]
pub enum CommandLine {
    Empty,
    NoTarget,
    EmptyStage,
    Run { stages: Vec<String>, redirect: Option<String> },
}

impl CommandLine {
    pub open spec fn view(&self) -> LineView {
        match *self {
            CommandLine::Empty => LineView::Empty,
            CommandLine::NoTarget => LineView::NoTarget,
            CommandLine::EmptyStage => LineView::EmptyStage,
            CommandLine::Run { stages, redirect } => LineView::Run {
                stages: contents(stages@),
                redirect: match redirect {
                    Some(t) => Some(t@),
                    None => None,
                },
            },
        }
    }
}

/// The stages of a pipeline.
fn split_stages(s: &str) -> (r: Vec<String>)
    ensures
        contents(r@) == stages_of(s@),
{
    let n: usize = s.unicode_len();
    let mut r: Vec<String> = Vec::new();
    let mut i: usize = 0;
    let ghost all = stages_of(s@);
    assert(s@.skip(0) =~= s@);
    assert(contents(r@) + all =~= all);
    loop
        invariant_except_break
            contents(r@) + stages_of(s@.skip(i as int)) == all,
        invariant
            n == s@.len(),
            i <= n,
            all == stages_of(s@),
        ensures
            contents(r@) == all,
        decreases n - i,
    {
        let ghost rest = s@.skip(i as int);
        let ghost before = contents(r@);
        let k: usize = find_from(s, '|', i);
        let part = s.substring_char(i, k);
        let stage = trim(part).to_owned();
        r.push(stage);
        assert(contents(r@) =~= before.push(stage@));
        if k == n {
            assert(part@ =~= rest);
            assert(contents(r@) =~= before + stages_of(rest));
            break;
        }
        assert(part@ =~= rest.take(k - i));
        assert(rest.skip(k - i + 1) =~= s@.skip(k + 1));
        i = k + 1;
        assert(contents(r@) + stages_of(s@.skip(i as int)) =~= before + stages_of(rest));
    }
    r
}

/// Takes a command line apart.
pub fn parse_line(line: &str) -> (r: CommandLine)
    ensures
        r@ == line_s(line@),
{
    let n: usize = line.unicode_len();
    if n == 0 {
        return CommandLine::Empty;
    }
    assert(line@.skip(0) =~= line@);
    let k: usize = find_from(line, '>', 0);
    let mut redirect: Option<String> = None;
    let mut pipeline: &str = line;
    if k < n {
        let left = line.substring_char(0, k);
        let right = line.substring_char(k + 1, n);
        assert(left@ =~= line@.take(k as int));
        assert(right@ =~= line@.skip(k + 1));
        pipeline = trim(left);
        let target = trim(right);
        if target.unicode_len() == 0 {
            return CommandLine::NoTarget;
        }
        redirect = Some(target.to_owned());
    }
    let stages = split_stages(pipeline);
    let ghost all = contents(stages@);
    let mut i: usize = 0;
    while i < stages.len()
        invariant
            i <= stages@.len(),
            all == contents(stages@),
            all == stages_of(pipeline@),
            n == line@.len(),
            n > 0,
            k == find_char(line@, '>'),
            pipeline@ == (if k < n {
                trimmed(line@.take(k as int))
            } else {
                line@
            }),
            k < n ==> trimmed(line@.skip(k + 1)).len() > 0,
            forall|j: int| 0 <= j < i ==> (#[trigger] all[j]).len() > 0,
        decreases stages@.len() - i,
    {
        assert(all[i as int] == stages@[i as int]@);
        if stages[i].as_str().unicode_len() == 0 {
            assert(all[i as int].len() == 0);
            return CommandLine::EmptyStage;
        }
        i = i + 1;
    }
    CommandLine::Run { stages, redirect }
}

} // verus!
