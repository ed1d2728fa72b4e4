//! Text building: decimal and hexadecimal numbers and padded columns.

use vstd::prelude::*;
use vstd::utf8::{decode_utf8, valid_utf8};

verus! {

/// `String::push` of std: appends one character.
pub assume_specification[ String::push ](s: &mut String, ch: char)
    ensures
        final(s)@ == old(s)@.push(ch),
;

/// The character of a digit below 16.
pub open spec fn digit(d: int) -> char {
    if d < 10 {
        (d + 48) as char
    } else {
        (d + 87) as char
    }
}

/// A number in a base up to 16, without leading zeros.
pub open spec fn numeral(n: nat, base: nat) -> Seq<char>
    decreases n,
{
    if base < 2 || n < base {
        seq![digit(n as int)]
    } else {
        proof {
            assert(n / base < n) by (nonlinear_arith)
                requires
                    n >= base,
                    base >= 2,
            ;
        }
        numeral(n / base, base).push(digit((n % base) as int))
    }
}

/// A number in decimal.
pub open spec fn decimal(n: nat) -> Seq<char> {
    numeral(n, 10)
}

/// A number in hexadecimal.
pub open spec fn hex(n: nat) -> Seq<char> {
    numeral(n, 16)
}

/// An integer in decimal, with a minus sign where it is negative.
pub open spec fn signed(n: int) -> Seq<char> {
    if n < 0 {
        seq!['-'] + decimal((-n) as nat)
    } else {
        decimal(n as nat)
    }
}

/// `n` copies of a character.
pub open spec fn repeated(c: char, n: int) -> Seq<char> {
    Seq::new(
        if n < 0 {
            0
        } else {
            n as nat
        },
        |i: int| c,
    )
}

/// `t` with `c` in front of it up to a width.
pub open spec fn right_aligned(t: Seq<char>, c: char, width: int) -> Seq<char> {
    repeated(c, width - t.len()) + t
}

/// `t` with spaces behind it up to a width.
pub open spec fn left_aligned(t: Seq<char>, width: int) -> Seq<char> {
    t + repeated(' ', width - t.len())
}

/// Appends a text.
pub fn push_str(s: &mut String, t: &str)
    ensures
        final(s)@ == old(s)@ + t@,
{
    s.append(t);
}

/// Appends a character up to `n` times.
pub fn push_repeated(s: &mut String, c: char, n: usize)
    ensures
        final(s)@ == old(s)@ + repeated(c, n as int),
{
    let mut i: usize = 0;
    while i < n
        invariant
            i <= n,
            s@ == old(s)@ + repeated(c, i as int),
        decreases n - i,
    {
        s.push(c);
        i = i + 1;
        assert(s@ =~= old(s)@ + repeated(c, i as int));
    }
    assert(s@ =~= old(s)@ + repeated(c, n as int));
}

/// Appends a number in a base up to 16.
pub fn push_numeral(s: &mut String, n: u64, base: u64)
    requires
        2 <= base <= 16,
    ensures
        final(s)@ == old(s)@ + numeral(n as nat, base as nat),
    decreases n,
{
    if n >= base {
        assert(n / base < n) by (nonlinear_arith)
            requires
                n >= base,
                base >= 2,
        ;
        push_numeral(s, n / base, base);
    }
    assert(n % base < base) by (nonlinear_arith)
        requires
            base >= 2,
    ;
    let d: u8 = (if n >= base {
        n % base
    } else {
        n
    }) as u8;
    let c: char = if d < 10 {
        (d + 48) as char
    } else {
        (d + 87) as char
    };
    s.push(c);
    assert(s@ =~= old(s)@ + numeral(n as nat, base as nat));
}

/// Appends a number in decimal.
pub fn push_decimal(s: &mut String, n: u64)
    ensures
        final(s)@ == old(s)@ + decimal(n as nat),
{
    push_numeral(s, n, 10);
}

/// Appends a number in hexadecimal.
pub fn push_hex(s: &mut String, n: u64)
    ensures
        final(s)@ == old(s)@ + hex(n as nat),
{
    push_numeral(s, n, 16);
}

/// Appends an integer in decimal.
pub fn push_signed(s: &mut String, n: i64)
    ensures
        final(s)@ == old(s)@ + signed(n as int),
{
    if n < 0 {
        s.push('-');
        let m: u64 = if n == i64::MIN {
            0x8000_0000_0000_0000
        } else {
            (-n) as u64
        };
        push_decimal(s, m);
        assert(s@ =~= old(s)@ + signed(n as int));
    } else {
        push_decimal(s, n as u64);
    }
}

/// Appends `t` behind enough of `c` to fill a width.
pub fn push_right(s: &mut String, t: &str, c: char, width: usize)
    ensures
        final(s)@ == old(s)@ + right_aligned(t@, c, width as int),
{
    let len: usize = t.unicode_len();
    if len < width {
        push_repeated(s, c, width - len);
    }
    s.append(t);
    assert(s@ =~= old(s)@ + right_aligned(t@, c, width as int));
}

/// Appends `t` and enough spaces to fill a width.
pub fn push_left(s: &mut String, t: &str, width: usize)
    ensures
        final(s)@ == old(s)@ + left_aligned(t@, width as int),
{
    let len: usize = t.unicode_len();
    s.append(t);
    if len < width {
        push_repeated(s, ' ', width - len);
    }
    assert(s@ =~= old(s)@ + left_aligned(t@, width as int));
}

/// Appends a number in a base up to 16, behind enough of `c` to fill a width.
pub fn push_number(s: &mut String, n: u64, base: u64, c: char, width: usize)
    requires
        2 <= base <= 16,
    ensures
        final(s)@ == old(s)@ + right_aligned(numeral(n as nat, base as nat), c, width as int),
{
    let mut t = String::new();
    push_numeral(&mut t, n, base);
    assert(t@ =~= numeral(n as nat, base as nat));
    push_right(s, t.as_str(), c, width);
}

/// The texts one after the other.
pub open spec fn flat(lines: Seq<Seq<char>>) -> Seq<char>
    decreases lines.len(),
{
    if lines.len() == 0 {
        Seq::empty()
    } else {
        flat(lines.drop_last()) + lines.last()
    }
}

/// One more text goes to the end.
pub proof fn lemma_flat_step(head: Seq<char>, lines: Seq<Seq<char>>, i: int)
    requires
        0 <= i < lines.len(),
    ensures
        head + flat(lines.take(i + 1)) == head + flat(lines.take(i)) + lines[i],
{
    assert(lines.take(i + 1).drop_last() =~= lines.take(i));
    assert(head + (flat(lines.take(i)) + lines[i]) =~= head + flat(lines.take(i)) + lines[i]);
}

/// With no text, nothing is added; with all of them, all are.
pub proof fn lemma_flat_ends(head: Seq<char>, lines: Seq<Seq<char>>)
    ensures
        head + flat(lines.take(0)) == head,
        lines.take(lines.len() as int) == lines,
{
    assert(head + flat(lines.take(0)) =~= head);
    assert(lines.take(lines.len() as int) =~= lines);
}

/// A number in decimal.
pub fn decimal_text(n: u64) -> (r: String)
    ensures
        r@ == decimal(n as nat),
{
    let mut s = String::new();
    push_decimal(&mut s, n);
    assert(s@ =~= decimal(n as nat));
    s
}

/// Whether a character is white space: the characters that Unicode gives the property
/// `White_Space`.
pub open spec fn white_space(c: char) -> bool {
    let n = c as u32;
    ||| 0x9 <= n <= 0xD
    ||| n == 0x20 || n == 0x85 || n == 0xA0 || n == 0x1680
    ||| 0x2000 <= n <= 0x200A
    ||| n == 0x2028 || n == 0x2029 || n == 0x202F || n == 0x205F || n == 0x3000
}

/// `char::is_whitespace` of std: whether a character has the property `White_Space` of
/// Unicode.
#[verifier::external_body]
pub(crate) fn is_space(c: char) -> (r: bool)
    ensures
        r == white_space(c),
{
    c.is_whitespace()
}

/// The text of bytes of which some may not be valid.
pub uninterp spec fn lossy(b: Seq<u8>) -> Seq<char>;

/// `String::from_utf8_lossy` of std. Valid bytes give the text that they encode.
#[verifier::external_body]
pub(crate) fn lossy_text(b: &[u8]) -> (r: String)
    ensures
        r@ == lossy(b@),
        valid_utf8(b@) ==> r@ == decode_utf8(b@),
{
    String::from_utf8_lossy(b).into_owned()
}

/// How many white space characters a text begins with.
pub open spec fn space_len(s: Seq<char>) -> nat
    decreases s.len(),
{
    if s.len() > 0 && white_space(s[0]) {
        1 + space_len(s.skip(1))
    } else {
        0
    }
}

/// How many characters come before the first white space.
pub open spec fn word_len(s: Seq<char>) -> nat
    decreases s.len(),
{
    if s.len() > 0 && !white_space(s[0]) {
        1 + word_len(s.skip(1))
    } else {
        0
    }
}

/// How long a text is without the white space at its end.
pub open spec fn trimmed_len(s: Seq<char>) -> nat
    decreases s.len(),
{
    if s.len() > 0 && white_space(s.last()) {
        trimmed_len(s.drop_last())
    } else {
        s.len()
    }
}

/// A text does not grow when it is trimmed.
pub proof fn lemma_trimmed_len(s: Seq<char>)
    ensures
        trimmed_len(s) <= s.len(),
    decreases s.len(),
{
    if s.len() > 0 && white_space(s.last()) {
        lemma_trimmed_len(s.drop_last());
    }
}

/// A text without white space at its ends.
pub open spec fn trimmed(s: Seq<char>) -> Seq<char> {
    let t = s.skip(space_len(s) as int);
    t.take(trimmed_len(t) as int)
}

/// The words of a text, which white space separates.
pub open spec fn words(s: Seq<char>) -> Seq<Seq<char>>
    decreases s.len(),
{
    let t = s.skip(space_len(s) as int);
    if t.len() == 0 {
        Seq::empty()
    } else {
        proof {
            lemma_space_len(s);
            lemma_word_len(t);
        }
        seq![t.take(word_len(t) as int)] + words(t.skip(word_len(t) as int))
    }
}

/// White space at the start is part of the text, and no white space follows it.
pub proof fn lemma_space_len(s: Seq<char>)
    ensures
        space_len(s) <= s.len(),
        space_len(s) < s.len() ==> !white_space(s[space_len(s) as int]),
    decreases s.len(),
{
    if s.len() > 0 && white_space(s[0]) {
        lemma_space_len(s.skip(1));
    }
}

/// A word is part of the text, and not empty if the text does not begin with
/// white space.
pub proof fn lemma_word_len(s: Seq<char>)
    ensures
        word_len(s) <= s.len(),
        s.len() > 0 && !white_space(s[0]) ==> word_len(s) > 0,
    decreases s.len(),
{
    if s.len() > 0 && !white_space(s[0]) {
        lemma_word_len(s.skip(1));
    }
}

/// Finds where the white space from `from` on ends.
pub fn skip_space(s: &str, from: usize) -> (r: usize)
    requires
        from <= s@.len(),
    ensures
        r == from + space_len(s@.skip(from as int)),
        r <= s@.len(),
{
    let len: usize = s.unicode_len();
    let mut i: usize = from;
    while i < len
        invariant
            len == s@.len(),
            from <= i <= len,
            i + space_len(s@.skip(i as int)) == from + space_len(s@.skip(from as int)),
        ensures
            i <= len,
            i == from + space_len(s@.skip(from as int)),
        decreases len - i,
    {
        assert(s@.skip(i as int).skip(1) =~= s@.skip(i + 1));
        if !is_space(s.get_char(i)) {
            break;
        }
        i = i + 1;
    }
    i
}

/// Finds where the word from `from` on ends.
pub fn skip_word(s: &str, from: usize) -> (r: usize)
    requires
        from <= s@.len(),
    ensures
        r == from + word_len(s@.skip(from as int)),
        r <= s@.len(),
{
    let len: usize = s.unicode_len();
    let mut i: usize = from;
    while i < len
        invariant
            len == s@.len(),
            from <= i <= len,
            i + word_len(s@.skip(i as int)) == from + word_len(s@.skip(from as int)),
        ensures
            i <= len,
            i == from + word_len(s@.skip(from as int)),
        decreases len - i,
    {
        assert(s@.skip(i as int).skip(1) =~= s@.skip(i + 1));
        if is_space(s.get_char(i)) {
            break;
        }
        i = i + 1;
    }
    i
}

/// A text without the white space at its end.
pub open spec fn trimmed_end(s: Seq<char>) -> Seq<char> {
    s.take(trimmed_len(s) as int)
}

/// A text without the white space at its end.
pub fn trim_end(s: &str) -> (r: &str)
    ensures
        r@ == trimmed_end(s@),
{
    let mut to: usize = s.unicode_len();
    assert(s@.take(to as int) =~= s@);
    while to > 0
        invariant
            to <= s@.len(),
            trimmed_len(s@.take(to as int)) == trimmed_len(s@),
        ensures
            to <= s@.len(),
            to == trimmed_len(s@),
        decreases to,
    {
        assert(s@.take(to as int).drop_last() =~= s@.take(to - 1));
        if !is_space(s.get_char(to - 1)) {
            break;
        }
        to = to - 1;
    }
    let r = s.substring_char(0, to);
    assert(r@ =~= s@.take(to as int));
    r
}

/// A text without white space at its ends.
pub fn trim(s: &str) -> (r: &str)
    ensures
        r@ == trimmed(s@),
{
    assert(s@.skip(0) =~= s@);
    let from: usize = skip_space(s, 0);
    let n: usize = s.unicode_len();
    let t = s.substring_char(from, n);
    assert(t@ =~= s@.skip(from as int));
    trim_end(t)
}

/// The contents of some texts.
pub open spec fn contents(v: Seq<String>) -> Seq<Seq<char>> {
    v.map_values(|s: String| s@)
}

/// The words of a text.
pub fn split_words(s: &str) -> (r: Vec<String>)
    ensures
        contents(r@) == words(s@),
{
    let len: usize = s.unicode_len();
    let mut r: Vec<String> = Vec::new();
    let mut i: usize = 0;
    assert(s@.skip(0) =~= s@);
    assert(contents(r@) + words(s@) =~= words(s@));
    while i < len
        invariant
            len == s@.len(),
            i <= len,
            contents(r@) + words(s@.skip(i as int)) == words(s@),
        ensures
            contents(r@) == words(s@),
        decreases len - i,
    {
        let ghost rest = s@.skip(i as int);
        proof {
            lemma_space_len(rest);
        }
        let from: usize = skip_space(s, i);
        let ghost t = rest.skip(space_len(rest) as int);
        assert(t =~= s@.skip(from as int));
        if from == len {
            assert(contents(r@) + words(rest) =~= contents(r@));
            break;
        }
        proof {
            lemma_word_len(t);
        }
        let to: usize = skip_word(s, from);
        let word = s.substring_char(from, to).to_owned();
        let ghost before = contents(r@);
        proof {
            assert(word@ =~= t.take(word_len(t) as int));
            assert(t.skip(word_len(t) as int) =~= s@.skip(to as int));
        }
        r.push(word);
        assert(contents(r@) =~= before.push(word@));
        assert(words(rest) == seq![word@] + words(s@.skip(to as int)));
        assert(contents(r@) + words(s@.skip(to as int)) =~= before + words(rest));
        i = to;
    }
    proof {
        if i == len {
            assert(s@.skip(i as int).len() == 0);
        }
    }
    r
}

} // verus!
