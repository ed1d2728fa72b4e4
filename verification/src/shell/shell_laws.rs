//! What someone at the prompt can rely on.

use crate::shell::line::{edit_s, key_action_s, repaint, EditorView, KeyAction};
use crate::shell::parse::{
    digits_value, find_char, has_empty, line_s, lines, number_s, occurs, stages_of, LineView,
};
use crate::shell::report::{grep_s, matching};
use crate::shell::run::{arguments, first_word, verb_s, Verb};
use crate::text::{digit, flat, numeral, repeated, trimmed, white_space, word_len};
use crate::text_laws::{blank, is_word, lemma_trimmed_between, lemma_word_before, tight};
use vstd::prelude::*;

verus! {

/// A row of the screen and the cursor in it after a text was printed: a carriage return
/// leads to the left edge, a backspace one step to the left, and any other character is
/// put at the cursor, which then steps to the right.
pub open spec fn printed_on(row: Seq<char>, at: int, out: Seq<char>) -> (Seq<char>, int)
    decreases out.len(),
{
    if out.len() == 0 {
        (row, at)
    } else {
        let (r, a) = printed_on(row, at, out.drop_last());
        let c = out.last();
        if c == '\r' {
            (r, 0)
        } else if c == '\x08' {
            (
                r,
                if a > 0 {
                    a - 1
                } else {
                    0
                },
            )
        } else if a < r.len() {
            (r.update(a, c), a + 1)
        } else {
            (r.push(c), a + 1)
        }
    }
}

/// A text without characters that move the cursor.
pub open spec fn plain(t: Seq<char>) -> bool {
    forall|i: int| 0 <= i < t.len() ==> (#[trigger] t[i]) as int >= 0x20
}

/// The row shows the prompt and the line, with the cursor in its place and nothing behind
/// the line.
pub open spec fn shows_line(row: Seq<char>, at: int, v: EditorView) -> bool {
    let n = v.prompt.len() + v.chars.len();
    &&& 0 <= v.cursor <= v.chars.len()
    &&& at == v.prompt.len() + v.cursor
    &&& row.len() >= n
    &&& row.take(n as int) == v.prompt + v.chars
    &&& forall|i: int| n <= i < row.len() ==> #[trigger] row[i] == ' '
}

/// What the editor holds is plain text, and it knows how much of its line was painted.
pub open spec fn editor_ok(v: EditorView, history: Seq<Seq<char>>) -> bool {
    &&& plain(v.prompt)
    &&& plain(v.chars)
    &&& plain(v.draft)
    &&& v.painted == v.chars.len()
    &&& v.hist_pos matches Some(i) ==> 0 <= i < v.hist.len()
    &&& forall|i: int| 0 <= i < v.hist.len() ==> plain(#[trigger] v.hist[i])
    &&& forall|i: int| 0 <= i < history.len() ==> plain(#[trigger] history[i])
}

proof fn lemma_printed_in_turn(row: Seq<char>, at: int, a: Seq<char>, b: Seq<char>)
    ensures
        printed_on(row, at, a + b) == printed_on(
            printed_on(row, at, a).0,
            printed_on(row, at, a).1,
            b,
        ),
    decreases b.len(),
{
    if b.len() == 0 {
        assert(a + b =~= a);
    } else {
        assert((a + b).drop_last() =~= a + b.drop_last());
        lemma_printed_in_turn(row, at, a, b.drop_last());
    }
}

proof fn lemma_printed_plain(row: Seq<char>, at: int, t: Seq<char>)
    requires
        0 <= at <= row.len(),
        plain(t),
    ensures
        ({
            let (r, a) = printed_on(row, at, t);
            &&& a == at + t.len()
            &&& r.len() == (if row.len() < at + t.len() {
                at + t.len()
            } else {
                row.len() as int
            })
            &&& forall|i: int| at <= i < at + t.len() ==> #[trigger] r[i] == t[i - at]
            &&& forall|i: int|
                0 <= i < r.len() && !(at <= i < at + t.len()) ==> #[trigger] r[i] == row[i]
        }),
    decreases t.len(),
{
    if t.len() > 0 {
        let u = t.drop_last();
        assert forall|i: int| 0 <= i < u.len() implies (#[trigger] u[i]) as int >= 0x20 by {
            assert(u[i] == t[i]);
        }
        lemma_printed_plain(row, at, u);
        assert(t.last() == t[t.len() - 1]);
    }
}

proof fn lemma_printed_back(row: Seq<char>, at: int, n: int)
    requires
        0 <= n <= at,
    ensures
        printed_on(row, at, repeated('\x08', n)) == (row, at - n),
    decreases n,
{
    let t = repeated('\x08', n);
    if n > 0 {
        assert(t.drop_last() =~= repeated('\x08', n - 1));
        assert(t.last() == '\x08');
        lemma_printed_back(row, at, n - 1);
    }
}

/// Repainting shows the line, whatever of a longer line was there before.
#[verifier::rlimit(40)]
#[verifier::spinoff_prover]
proof fn lemma_repaint_shows(row: Seq<char>, at: int, v: EditorView)
    requires
        plain(v.prompt),
        plain(v.chars),
        0 <= v.cursor <= v.chars.len(),
        0 <= v.painted,
        forall|i: int|
            v.prompt.len() + v.painted <= i < row.len() && v.prompt.len() + v.chars.len() <= i
                ==> #[trigger] row[i] == ' ',
    ensures
        shows_line(printed_on(row, at, repaint(v)).0, printed_on(row, at, repaint(v)).1, v),
{
    let p = v.prompt.len() as int;
    let n = v.chars.len() as int;
    let extra = v.painted - n;
    let e = if extra < 0 {
        0
    } else {
        extra
    };
    let o1 = seq!['\r'];
    let o2 = o1 + v.prompt;
    let o3 = o2 + v.chars;
    let o4 = o3 + repeated(' ', extra);
    let o5 = o4 + repeated('\x08', extra);
    let o6 = o5 + repeated('\x08', n - v.cursor);
    assert(o6 =~= repaint(v));
    assert(o1.drop_last() =~= Seq::<char>::empty());
    assert(o1.last() == '\r');
    reveal_with_fuel(printed_on, 2);
    assert(printed_on(row, at, o1) == (row, 0int));
    lemma_printed_in_turn(row, at, o1, v.prompt);
    lemma_printed_plain(row, 0, v.prompt);
    let (r2, a2) = printed_on(row, at, o2);
    lemma_printed_in_turn(row, at, o2, v.chars);
    lemma_printed_plain(r2, a2, v.chars);
    let (r3, a3) = printed_on(row, at, o3);
    lemma_printed_in_turn(row, at, o3, repeated(' ', extra));
    assert(plain(repeated(' ', extra)));
    lemma_printed_plain(r3, a3, repeated(' ', extra));
    let (r4, a4) = printed_on(row, at, o4);
    assert(repeated(' ', extra).len() == e);
    assert(a4 == p + n + e);
    lemma_printed_in_turn(row, at, o4, repeated('\x08', extra));
    assert(repeated('\x08', extra) =~= repeated('\x08', e));
    lemma_printed_back(r4, a4, e);
    lemma_printed_in_turn(row, at, o5, repeated('\x08', n - v.cursor));
    lemma_printed_back(r4, p + n, n - v.cursor);
    let (r6, a6) = printed_on(row, at, o6);
    assert(r6 == r4 && a6 == p + v.cursor);
    assert forall|i: int| 0 <= i < p + n implies r4[i] == (v.prompt + v.chars)[i] by {
        assert(r4[i] == r3[i]);
        if i < p {
            assert(r3[i] == r2[i]);
        }
    }
    assert(r4.take(p + n) =~= v.prompt + v.chars);
    assert forall|i: int| p + n <= i < r4.len() implies #[trigger] r4[i] == ' ' by {
        if i >= p + n + e {
            assert(r4[i] == r3[i] && r3[i] == r2[i] && r2[i] == row[i]);
        }
    }
}

/// Whatever key is pressed, what is printed for it keeps the row as it should be: it shows
/// the prompt and the line as they then are, the cursor stands where the next character
/// goes, and nothing is left of what was deleted.
#[verifier::rlimit(40)]
#[verifier::spinoff_prover]
pub proof fn law_screen_shows_the_line(
    v: EditorView,
    history: Seq<Seq<char>>,
    c: char,
    row: Seq<char>,
    at: int,
)
    requires
        editor_ok(v, history),
        shows_line(row, at, v),
    ensures
        ({
            let (out, v1) = edit_s(v, history, c);
            let (row1, at1) = printed_on(row, at, out);
            &&& editor_ok(v1, history)
            &&& v1.prompt == v.prompt
            &&& shows_line(row1, at1, v1)
        }),
{
    let (out, v1) = edit_s(v, history, c);
    let p = v.prompt.len() as int;
    match key_action_s(c) {
        KeyAction::Left => {
            if v.cursor > 0 {
                assert(seq!['\x08'] =~= repeated('\x08', 1));
                lemma_printed_back(row, at, 1);
            }
        },
        KeyAction::Home => {
            lemma_printed_back(row, at, v.cursor);
        },
        KeyAction::Right => {
            if v.cursor < v.chars.len() {
                let t = seq![v.chars[v.cursor]];
                assert(out == t);
                assert(plain(t));
                lemma_printed_plain(row, at, t);
                assert(row[at] == row.take(p + v.chars.len())[at]);
                assert(row[at] == v.chars[v.cursor]);
                assert(printed_on(row, at, t).0 =~= row);
            }
        },
        KeyAction::End => {
            let t = v.chars.skip(v.cursor);
            assert(plain(t));
            lemma_printed_plain(row, at, t);
            let r = printed_on(row, at, t).0;
            assert forall|i: int| 0 <= i < row.len() implies r[i] == row[i] by {
                if at <= i < at + t.len() {
                    assert(row[i] == row.take(p + v.chars.len())[i]);
                    assert(row[i] == v.chars[i - p]);
                }
            }
            assert(r =~= row);
        },
        KeyAction::Insert(d) => {
            let w = EditorView { chars: v.chars.insert(v.cursor, d), cursor: v.cursor + 1, ..v };
            assert(plain(w.chars));
            lemma_repaint_shows(row, at, w);
        },
        KeyAction::Backspace => {
            if v.cursor > 0 {
                let w = EditorView { chars: v.chars.remove(v.cursor - 1), cursor: v.cursor - 1, ..v };
                assert(plain(w.chars));
                lemma_repaint_shows(row, at, w);
            }
        },
        KeyAction::Delete => {
            if v.cursor < v.chars.len() {
                let w = EditorView { chars: v.chars.remove(v.cursor), ..v };
                assert(plain(w.chars));
                lemma_repaint_shows(row, at, w);
            }
        },
        KeyAction::Previous => {
            match v.hist_pos {
                None => {
                    if history.len() > 0 {
                        let i = history.len() - 1;
                        lemma_repaint_shows(
                            row,
                            at,
                            EditorView {
                                hist: history,
                                hist_pos: Some(i),
                                draft: v.chars,
                                chars: history[i],
                                cursor: history[i].len() as int,
                                ..v
                            },
                        );
                    }
                },
                Some(i) => {
                    if i > 0 {
                        lemma_repaint_shows(
                            row,
                            at,
                            EditorView {
                                hist_pos: Some(i - 1),
                                chars: v.hist[i - 1],
                                cursor: v.hist[i - 1].len() as int,
                                ..v
                            },
                        );
                    }
                },
            }
        },
        KeyAction::Next => {
            if let Some(i) = v.hist_pos {
                if i + 1 < v.hist.len() {
                    lemma_repaint_shows(
                        row,
                        at,
                        EditorView {
                            hist_pos: Some(i + 1),
                            chars: v.hist[i + 1],
                            cursor: v.hist[i + 1].len() as int,
                            ..v
                        },
                    );
                } else {
                    lemma_repaint_shows(
                        row,
                        at,
                        EditorView {
                            hist_pos: None,
                            chars: v.draft,
                            cursor: v.draft.len() as int,
                            ..v
                        },
                    );
                }
            }
        },
        _ => {},
    }
}

/// A character that is typed goes in before the cursor; backspace (08h) takes the one
/// before the cursor away and delete (7Fh) the one under it; the left and right arrows
/// (13h, 14h) move the cursor by one, home and end (15h, 16h) to the ends of the line.
pub proof fn law_keys_edit_at_the_cursor(v: EditorView, history: Seq<Seq<char>>, c: char)
    requires
        0 <= v.cursor <= v.chars.len(),
    ensures
        ({
            let w = edit_s(v, history, c).1;
            let left = v.chars.take(v.cursor);
            let right = v.chars.skip(v.cursor);
            let k = c as int;
            &&& k >= 0x20 && k != 0x7f ==> w.chars == left + seq![c] + right && w.cursor
                == left.len() + 1
            &&& k == 0x08 && left.len() > 0 ==> w.chars == left.drop_last() + right && w.cursor
                == left.len() - 1
            &&& k == 0x7f && right.len() > 0 ==> w.chars == left + right.drop_first() && w.cursor
                == left.len()
            &&& (k == 0x08 && left.len() == 0 || k == 0x7f && right.len() == 0) ==> w == v
            &&& 0x13 <= k <= 0x16 ==> w.chars == v.chars
            &&& k == 0x13 && left.len() > 0 ==> w.cursor == v.cursor - 1
            &&& k == 0x14 && right.len() > 0 ==> w.cursor == v.cursor + 1
            &&& k == 0x15 ==> w.cursor == 0
            &&& k == 0x16 ==> w.cursor == v.chars.len()
        }),
{
    let k = c as int;
    let left = v.chars.take(v.cursor);
    let right = v.chars.skip(v.cursor);
    if k >= 0x20 && k != 0x7f {
        assert(v.chars.insert(v.cursor, c) =~= left + seq![c] + right);
    }
    if k == 0x08 && v.cursor > 0 {
        assert(v.chars.remove(v.cursor - 1) =~= left.drop_last() + right);
    }
    if k == 0x7f && v.cursor < v.chars.len() {
        assert(v.chars.remove(v.cursor) =~= left + right.drop_first());
    }
}

/// A number that is written out in a base up to ten reads back as itself, with or without
/// a plus sign before it, if it is not above the limit.
pub proof fn law_numbers_read_back(n: nat, base: nat, max: nat)
    requires
        2 <= base <= 10,
    ensures
        number_s(numeral(n, base), base, max) == (if n <= max {
            Some(n)
        } else {
            None
        }),
        number_s(seq!['+'] + numeral(n, base), base, max) == number_s(numeral(n, base), base, max),
{
    lemma_digits_of_numeral(n, base);
    let t = numeral(n, base);
    assert(t[0] != '+');
    let s = seq!['+'] + t;
    assert(s.skip(1) =~= t);
}

proof fn lemma_digits_of_numeral(n: nat, base: nat)
    requires
        2 <= base <= 10,
    ensures
        digits_value(numeral(n, base), base) == Some(n),
        numeral(n, base).len() > 0,
        numeral(n, base)[0] as int >= 48,
    decreases n,
{
    let t = numeral(n, base);
    if n < base {
        assert(t.drop_last() =~= Seq::<char>::empty());
        assert(t.last() as int == n + 48);
        assert(digits_value(t.drop_last(), base) == Some(0nat));
        assert(0 * base == 0) by (nonlinear_arith);
    } else {
        assert(n / base < n) by (nonlinear_arith)
            requires
                n >= base,
                base >= 2,
        ;
        lemma_digits_of_numeral(n / base, base);
        let d = (n % base) as int;
        assert(0 <= n % base < base) by (nonlinear_arith)
            requires
                base >= 2,
        ;
        assert(t.drop_last() =~= numeral(n / base, base));
        assert(t.last() == digit(d));
        assert(t.last() as int == d + 48);
        assert((n / base) * base + n % base == n) by (nonlinear_arith)
            requires
                base >= 2,
        ;
    }
}

/// The word for a command.
pub open spec fn name_of(v: Verb) -> Seq<char> {
    match v {
        Verb::Help => "help"@,
        Verb::History => "history"@,
        Verb::Tasks => "ps"@,
        Verb::Pid => "pid"@,
        Verb::Ticks => "ticks"@,
        Verb::Uptime => "uptime"@,
        Verb::Echo => "echo"@,
        Verb::Count => "wc"@,
        Verb::Grep => "grep"@,
        Verb::Ipc => "ipc"@,
        Verb::Caps => "caps"@,
        Verb::Heap => "mem"@,
        Verb::Irqs => "irqs"@,
        Verb::Dma => "dma"@,
        Verb::Pci => "lspci"@,
        Verb::Ahci => "disks"@,
        Verb::Identify => "identify"@,
        Verb::Devices => "lsblk"@,
        Verb::BlkRead => "blkread"@,
        Verb::BlkWrite => "blkwrite"@,
        Verb::Mkfs => "mkfs.nextfs"@,
        Verb::Mount => "mount"@,
        Verb::Unmount => "unmount"@,
        Verb::NxLs => "nxls"@,
        Verb::NxCat => "nxcat"@,
        Verb::NxWrite => "nxwrite"@,
        Verb::NxMkdir => "nxmkdir"@,
        Verb::NxRm => "nxrm"@,
        Verb::NxRmdir => "nxrmdir"@,
        Verb::NxTruncate => "nxtruncate"@,
        Verb::NxStat => "nxstat"@,
        Verb::NxChmod => "nxchmod"@,
        Verb::NxChown => "nxchown"@,
        Verb::Services => "services"@,
        Verb::Ls => "ls"@,
        Verb::Cat => "cat"@,
        Verb::Write => "write"@,
        Verb::Touch => "touch"@,
        Verb::Mkdir => "mkdir"@,
        Verb::Rm => "rm"@,
        Verb::Stat => "stat"@,
        Verb::Int3 => "int3"@,
        Verb::Clear => "clear"@,
        Verb::Colors => "colors"@,
        Verb::Other => Seq::empty(),
    }
}

/// A number that tells the words for the commands apart: their length and some of their
/// letters.
spec fn mark(w: Seq<char>) -> int {
    let third = if w.len() > 2 {
        w[2] as int
    } else {
        0
    };
    let fifth = if w.len() > 4 {
        w[4] as int
    } else {
        0
    };
    w.len() + 0x10 * w[0] as int + 0x800 * w[1] as int + 0x4_0000 * third + 0x200_0000 * fifth
}

proof fn lemma_marks()
    ensures
        mark("help"@) == 28520068,
        mark("history"@) == 3754905223,
        mark("ps"@) == 237314,
        mark("pid"@) == 26431235,
        mark("ticks"@) == 3884928837,
        mark("uptime"@) == 3688073046,
        mark("echo"@) == 27467348,
        mark("wc"@) == 204658,
        mark("grep"@) == 26711668,
        mark("ipc"@) == 26183315,
        mark("caps"@) == 29560372,
        mark("mem"@) == 28782291,
        mark("irqs"@) == 29857428,
        mark("dma"@) == 25652803,
        mark("pci"@) == 27729667,
        mark("lspci"@) == 3552812741,
        mark("ahci"@) == 26166804,
        mark("disks"@) == 3889122885,
        mark("identify"@) == 3918997144,
        mark("lsblk"@) == 3616251589,
        mark("blkdev"@) == 3417269798,
        mark("blkread"@) == 3417269799,
        mark("blkwrite"@) == 3853477416,
        mark("mkfs.nextfs"@) == 1570463451,
        mark("mount"@) == 3923214037,
        mark("unmount"@) == 3954669399,
        mark("nxls"@) == 28559076,
        mark("nxcat"@) == 3918513893,
        mark("nxwrite"@) == 3554658023,
        mark("nxmkdir"@) == 3384264423,
        mark("nxrm"@) == 30131940,
        mark("nxrmdir"@) == 3385575143,
        mark("nxtruncate"@) == 3956524778,
        mark("nxstat"@) == 3285173990,
        mark("nxchmod"@) == 3683632871,
        mark("nxchown"@) == 3750741735,
        mark("services"@) == 3553308472,
        mark("ls"@) == 237250,
        mark("cat"@) == 30608947,
        mark("write"@) == 3416758133,
        mark("touch"@) == 3520560965,
        mark("mkdir"@) == 3851640533,
        mark("rm"@) == 225058,
        mark("stat"@) == 25667380,
        mark("int3"@) == 30635668,
        mark("clear"@) == 3851904565,
        mark("colors"@) == 3853745718,
{
    reveal_strlit("help");
    reveal_strlit("history");
    reveal_strlit("ps");
    reveal_strlit("pid");
    reveal_strlit("ticks");
    reveal_strlit("uptime");
    reveal_strlit("echo");
    reveal_strlit("wc");
    reveal_strlit("grep");
    reveal_strlit("ipc");
    reveal_strlit("caps");
    reveal_strlit("mem");
    reveal_strlit("irqs");
    reveal_strlit("dma");
    reveal_strlit("pci");
    reveal_strlit("lspci");
    reveal_strlit("ahci");
    reveal_strlit("disks");
    reveal_strlit("identify");
    reveal_strlit("lsblk");
    reveal_strlit("blkdev");
    reveal_strlit("blkread");
    reveal_strlit("blkwrite");
    reveal_strlit("mkfs.nextfs");
    reveal_strlit("mount");
    reveal_strlit("unmount");
    reveal_strlit("nxls");
    reveal_strlit("nxcat");
    reveal_strlit("nxwrite");
    reveal_strlit("nxmkdir");
    reveal_strlit("nxrm");
    reveal_strlit("nxrmdir");
    reveal_strlit("nxtruncate");
    reveal_strlit("nxstat");
    reveal_strlit("nxchmod");
    reveal_strlit("nxchown");
    reveal_strlit("services");
    reveal_strlit("ls");
    reveal_strlit("cat");
    reveal_strlit("write");
    reveal_strlit("touch");
    reveal_strlit("mkdir");
    reveal_strlit("rm");
    reveal_strlit("stat");
    reveal_strlit("int3");
    reveal_strlit("clear");
    reveal_strlit("colors");
    assert("help"@.len() == 4 && "help"@[0] == 'h' && "help"@[1] == 'e' && "help"@[2] == 'l');
    assert("history"@.len() == 7 && "history"@[0] == 'h' && "history"@[1] == 'i' && "history"@[2] == 's' && "history"@[4] == 'o');
    assert("ps"@.len() == 2 && "ps"@[0] == 'p' && "ps"@[1] == 's');
    assert("pid"@.len() == 3 && "pid"@[0] == 'p' && "pid"@[1] == 'i' && "pid"@[2] == 'd');
    assert("ticks"@.len() == 5 && "ticks"@[0] == 't' && "ticks"@[1] == 'i' && "ticks"@[2] == 'c' && "ticks"@[4] == 's');
    assert("uptime"@.len() == 6 && "uptime"@[0] == 'u' && "uptime"@[1] == 'p' && "uptime"@[2] == 't' && "uptime"@[4] == 'm');
    assert("echo"@.len() == 4 && "echo"@[0] == 'e' && "echo"@[1] == 'c' && "echo"@[2] == 'h');
    assert("wc"@.len() == 2 && "wc"@[0] == 'w' && "wc"@[1] == 'c');
    assert("grep"@.len() == 4 && "grep"@[0] == 'g' && "grep"@[1] == 'r' && "grep"@[2] == 'e');
    assert("ipc"@.len() == 3 && "ipc"@[0] == 'i' && "ipc"@[1] == 'p' && "ipc"@[2] == 'c');
    assert("caps"@.len() == 4 && "caps"@[0] == 'c' && "caps"@[1] == 'a' && "caps"@[2] == 'p');
    assert("mem"@.len() == 3 && "mem"@[0] == 'm' && "mem"@[1] == 'e' && "mem"@[2] == 'm');
    assert("irqs"@.len() == 4 && "irqs"@[0] == 'i' && "irqs"@[1] == 'r' && "irqs"@[2] == 'q');
    assert("dma"@.len() == 3 && "dma"@[0] == 'd' && "dma"@[1] == 'm' && "dma"@[2] == 'a');
    assert("pci"@.len() == 3 && "pci"@[0] == 'p' && "pci"@[1] == 'c' && "pci"@[2] == 'i');
    assert("lspci"@.len() == 5 && "lspci"@[0] == 'l' && "lspci"@[1] == 's' && "lspci"@[2] == 'p' && "lspci"@[4] == 'i');
    assert("ahci"@.len() == 4 && "ahci"@[0] == 'a' && "ahci"@[1] == 'h' && "ahci"@[2] == 'c');
    assert("disks"@.len() == 5 && "disks"@[0] == 'd' && "disks"@[1] == 'i' && "disks"@[2] == 's' && "disks"@[4] == 's');
    assert("identify"@.len() == 8 && "identify"@[0] == 'i' && "identify"@[1] == 'd' && "identify"@[2] == 'e' && "identify"@[4] == 't');
    assert("lsblk"@.len() == 5 && "lsblk"@[0] == 'l' && "lsblk"@[1] == 's' && "lsblk"@[2] == 'b' && "lsblk"@[4] == 'k');
    assert("blkdev"@.len() == 6 && "blkdev"@[0] == 'b' && "blkdev"@[1] == 'l' && "blkdev"@[2] == 'k' && "blkdev"@[4] == 'e');
    assert("blkread"@.len() == 7 && "blkread"@[0] == 'b' && "blkread"@[1] == 'l' && "blkread"@[2] == 'k' && "blkread"@[4] == 'e');
    assert("blkwrite"@.len() == 8 && "blkwrite"@[0] == 'b' && "blkwrite"@[1] == 'l' && "blkwrite"@[2] == 'k' && "blkwrite"@[4] == 'r');
    assert("mkfs.nextfs"@.len() == 11 && "mkfs.nextfs"@[0] == 'm' && "mkfs.nextfs"@[1] == 'k' && "mkfs.nextfs"@[2] == 'f' && "mkfs.nextfs"@[4] == '.');
    assert("mount"@.len() == 5 && "mount"@[0] == 'm' && "mount"@[1] == 'o' && "mount"@[2] == 'u' && "mount"@[4] == 't');
    assert("unmount"@.len() == 7 && "unmount"@[0] == 'u' && "unmount"@[1] == 'n' && "unmount"@[2] == 'm' && "unmount"@[4] == 'u');
    assert("nxls"@.len() == 4 && "nxls"@[0] == 'n' && "nxls"@[1] == 'x' && "nxls"@[2] == 'l');
    assert("nxcat"@.len() == 5 && "nxcat"@[0] == 'n' && "nxcat"@[1] == 'x' && "nxcat"@[2] == 'c' && "nxcat"@[4] == 't');
    assert("nxwrite"@.len() == 7 && "nxwrite"@[0] == 'n' && "nxwrite"@[1] == 'x' && "nxwrite"@[2] == 'w' && "nxwrite"@[4] == 'i');
    assert("nxmkdir"@.len() == 7 && "nxmkdir"@[0] == 'n' && "nxmkdir"@[1] == 'x' && "nxmkdir"@[2] == 'm' && "nxmkdir"@[4] == 'd');
    assert("nxrm"@.len() == 4 && "nxrm"@[0] == 'n' && "nxrm"@[1] == 'x' && "nxrm"@[2] == 'r');
    assert("nxrmdir"@.len() == 7 && "nxrmdir"@[0] == 'n' && "nxrmdir"@[1] == 'x' && "nxrmdir"@[2] == 'r' && "nxrmdir"@[4] == 'd');
    assert("nxtruncate"@.len() == 10 && "nxtruncate"@[0] == 'n' && "nxtruncate"@[1] == 'x' && "nxtruncate"@[2] == 't' && "nxtruncate"@[4] == 'u');
    assert("nxstat"@.len() == 6 && "nxstat"@[0] == 'n' && "nxstat"@[1] == 'x' && "nxstat"@[2] == 's' && "nxstat"@[4] == 'a');
    assert("nxchmod"@.len() == 7 && "nxchmod"@[0] == 'n' && "nxchmod"@[1] == 'x' && "nxchmod"@[2] == 'c' && "nxchmod"@[4] == 'm');
    assert("nxchown"@.len() == 7 && "nxchown"@[0] == 'n' && "nxchown"@[1] == 'x' && "nxchown"@[2] == 'c' && "nxchown"@[4] == 'o');
    assert("services"@.len() == 8 && "services"@[0] == 's' && "services"@[1] == 'e' && "services"@[2] == 'r' && "services"@[4] == 'i');
    assert("ls"@.len() == 2 && "ls"@[0] == 'l' && "ls"@[1] == 's');
    assert("cat"@.len() == 3 && "cat"@[0] == 'c' && "cat"@[1] == 'a' && "cat"@[2] == 't');
    assert("write"@.len() == 5 && "write"@[0] == 'w' && "write"@[1] == 'r' && "write"@[2] == 'i' && "write"@[4] == 'e');
    assert("touch"@.len() == 5 && "touch"@[0] == 't' && "touch"@[1] == 'o' && "touch"@[2] == 'u' && "touch"@[4] == 'h');
    assert("mkdir"@.len() == 5 && "mkdir"@[0] == 'm' && "mkdir"@[1] == 'k' && "mkdir"@[2] == 'd' && "mkdir"@[4] == 'r');
    assert("rm"@.len() == 2 && "rm"@[0] == 'r' && "rm"@[1] == 'm');
    assert("stat"@.len() == 4 && "stat"@[0] == 's' && "stat"@[1] == 't' && "stat"@[2] == 'a');
    assert("int3"@.len() == 4 && "int3"@[0] == 'i' && "int3"@[1] == 'n' && "int3"@[2] == 't');
    assert("clear"@.len() == 5 && "clear"@[0] == 'c' && "clear"@[1] == 'l' && "clear"@[2] == 'e' && "clear"@[4] == 'r');
    assert("colors"@.len() == 6 && "colors"@[0] == 'c' && "colors"@[1] == 'o' && "colors"@[2] == 'l' && "colors"@[4] == 'r');
}

/// Every command is reached by its name; the listings of devices, ports and disks have a
/// second one each.
#[verifier::rlimit(60)]
#[verifier::spinoff_prover]
pub proof fn law_commands_have_their_names(v: Verb, w: Seq<char>)
    ensures
        verb_s(name_of(v)) == v,
        verb_s(w) == v && v != Verb::Other ==> w == name_of(v) || v == Verb::Pci && w == "pci"@ || v
            == Verb::Ahci && w == "ahci"@ || v == Verb::Devices && w == "blkdev"@,
        verb_s("pci"@) == Verb::Pci,
        verb_s("ahci"@) == Verb::Ahci,
        verb_s("blkdev"@) == Verb::Devices,
{
    lemma_marks();
    lemma_no_word();
}

/// No word for a command is empty.
proof fn lemma_no_word()
    ensures
        verb_s(Seq::empty()) == Verb::Other,
{
    reveal_strlit("help");
    reveal_strlit("history");
    reveal_strlit("ps");
    reveal_strlit("pid");
    reveal_strlit("ticks");
    reveal_strlit("uptime");
    reveal_strlit("echo");
    reveal_strlit("wc");
    reveal_strlit("grep");
    reveal_strlit("ipc");
    reveal_strlit("caps");
    reveal_strlit("mem");
    reveal_strlit("irqs");
    reveal_strlit("dma");
    reveal_strlit("pci");
    reveal_strlit("lspci");
    reveal_strlit("ahci");
    reveal_strlit("disks");
    reveal_strlit("identify");
    reveal_strlit("lsblk");
    reveal_strlit("blkdev");
    reveal_strlit("blkread");
    reveal_strlit("blkwrite");
    reveal_strlit("mkfs.nextfs");
    reveal_strlit("mount");
    reveal_strlit("unmount");
    reveal_strlit("nxls");
    reveal_strlit("nxcat");
    reveal_strlit("nxwrite");
    reveal_strlit("nxmkdir");
    reveal_strlit("nxrm");
    reveal_strlit("nxrmdir");
    reveal_strlit("nxtruncate");
    reveal_strlit("nxstat");
    reveal_strlit("nxchmod");
    reveal_strlit("nxchown");
    reveal_strlit("services");
    reveal_strlit("ls");
    reveal_strlit("cat");
    reveal_strlit("write");
    reveal_strlit("touch");
    reveal_strlit("mkdir");
    reveal_strlit("rm");
    reveal_strlit("stat");
    reveal_strlit("int3");
    reveal_strlit("clear");
    reveal_strlit("colors");
    assert(Seq::<char>::empty().len() == 0);
}

/// A command: a tight text without bars and arrows.
pub open spec fn is_command(t: Seq<char>) -> bool {
    tight(t) && !t.contains('|') && !t.contains('>')
}

/// Commands with bars between them.
pub open spec fn joined(stages: Seq<Seq<char>>) -> Seq<char>
    decreases stages.len(),
{
    if stages.len() <= 1 {
        stages[0]
    } else {
        stages[0] + seq![' ', '|', ' '] + joined(stages.skip(1))
    }
}

/// Commands with bars between them are the stages of a pipeline, in order, and the output
/// goes to the file behind the arrow, if there is one.
pub proof fn law_pipelines_are_taken_apart(stages: Seq<Seq<char>>, target: Seq<char>)
    requires
        stages.len() > 0,
        forall|i: int| 0 <= i < stages.len() ==> is_command(#[trigger] stages[i]),
        tight(target),
    ensures
        line_s(joined(stages)) == (LineView::Run { stages, redirect: None }),
        line_s(joined(stages) + seq![' ', '>', ' '] + target) == (LineView::Run {
            stages,
            redirect: Some(target),
        }),
        line_s(joined(stages) + seq![' ', '>']) == LineView::NoTarget,
{
    let j = joined(stages);
    let none = Seq::<char>::empty();
    lemma_joined(stages);
    lemma_stages(none, stages, none);
    assert(none + j + none =~= j);
    lemma_find_nowhere(j, '>');
    assert(!has_empty(stages)) by {
        if has_empty(stages) {
            let i = choose|i: int| 0 <= i < stages.len() && (#[trigger] stages[i]).len() == 0;
            assert(is_command(stages[i]));
        }
    }
    let k = j.len() as int + 1;
    let s = j + seq![' ', '>', ' '] + target;
    assert forall|i: int| 0 <= i < k implies s[i] != '>' by {
        if i < j.len() {
            assert(s[i] == j[i] && j.contains(j[i]));
        }
    }
    lemma_find_first(s, '>', k);
    assert(s.take(k) =~= none + j + seq![' ']);
    assert(s.skip(k + 1) =~= seq![' '] + target + none);
    lemma_trimmed_between(none, j, seq![' ']);
    lemma_trimmed_between(seq![' '], target, none);
    let u = j + seq![' ', '>'];
    assert forall|i: int| 0 <= i < k implies u[i] != '>' by {
        if i < j.len() {
            assert(u[i] == j[i] && j.contains(j[i]));
        }
    }
    lemma_find_first(u, '>', k);
    assert(u.skip(k + 1) =~= none);
    assert(trimmed(none).len() == 0);
}

/// The first place of a character is found.
pub proof fn lemma_find_first(s: Seq<char>, c: char, k: int)
    requires
        0 <= k < s.len(),
        s[k] == c,
        forall|i: int| 0 <= i < k ==> s[i] != c,
    ensures
        find_char(s, c) == k,
    decreases k,
{
    if k > 0 {
        lemma_find_first(s.skip(1), c, k - 1);
    }
}

/// A character that is nowhere is not found.
pub proof fn lemma_find_nowhere(s: Seq<char>, c: char)
    requires
        !s.contains(c),
    ensures
        find_char(s, c) == s.len(),
    decreases s.len(),
{
    if s.len() > 0 {
        assert(s.contains(s[0]));
        let t = s.skip(1);
        if t.contains(c) {
            let i = t.index_of(c);
            assert(s[i + 1] == c);
        }
        lemma_find_nowhere(t, c);
    }
}

proof fn lemma_joined(stages: Seq<Seq<char>>)
    requires
        stages.len() > 0,
        forall|i: int| 0 <= i < stages.len() ==> is_command(#[trigger] stages[i]),
    ensures
        tight(joined(stages)),
        !joined(stages).contains('>'),
    decreases stages.len(),
{
    let j = joined(stages);
    assert(is_command(stages[0]));
    if stages.len() > 1 {
        let rest = stages.skip(1);
        assert forall|i: int| 0 <= i < rest.len() implies is_command(#[trigger] rest[i]) by {
            assert(rest[i] == stages[i + 1]);
        }
        lemma_joined(rest);
        assert(j[0] == stages[0][0]);
        assert(j.last() == joined(rest).last());
        if j.contains('>') {
            let i = j.index_of('>');
            let n = stages[0].len() as int;
            if i < n {
                assert(stages[0][i] == '>');
            } else if i >= n + 3 {
                assert(joined(rest)[i - n - 3] == '>');
            } else {
                assert(seq![' ', '|', ' '][i - n] == '>');
            }
        }
    }
}

proof fn lemma_stages(a: Seq<char>, stages: Seq<Seq<char>>, b: Seq<char>)
    requires
        blank(a),
        blank(b),
        stages.len() > 0,
        forall|i: int| 0 <= i < stages.len() ==> is_command(#[trigger] stages[i]),
    ensures
        stages_of(a + joined(stages) + b) == stages,
    decreases stages.len(),
{
    let s = a + joined(stages) + b;
    let t = stages[0];
    assert(is_command(t));
    if stages.len() == 1 {
        if s.contains('|') {
            let i = s.index_of('|');
            if i < a.len() {
                assert(white_space(a[i]));
            } else if i < a.len() + t.len() {
                assert(t[i - a.len()] == '|');
            } else {
                assert(white_space(b[i - a.len() - t.len()]));
            }
        }
        lemma_find_nowhere(s, '|');
        lemma_trimmed_between(a, t, b);
        assert(stages =~= seq![t]);
    } else {
        let rest = stages.skip(1);
        let j = joined(rest);
        let k = (a.len() + t.len() + 1) as int;
        let gap = seq![' ', '|', ' '];
        assert(s =~= a + t + gap + j + b);
        assert forall|i: int| 0 <= i < k implies s[i] != '|' by {
            if i < a.len() {
                assert(s[i] == a[i] && white_space(a[i]));
            } else if i < a.len() + t.len() {
                assert(s[i] == t[i - a.len()] && t.contains(t[i - a.len()]));
            }
        }
        assert(s[k] == '|');
        lemma_find_first(s, '|', k);
        assert(s.take(k) =~= a + t + seq![' ']);
        lemma_trimmed_between(a, t, seq![' ']);
        assert(s.skip(k + 1) =~= seq![' '] + j + b);
        assert forall|i: int| 0 <= i < rest.len() implies is_command(#[trigger] rest[i]) by {
            assert(rest[i] == stages[i + 1]);
        }
        lemma_stages(seq![' '], rest, b);
        assert(seq![t] + rest =~= stages);
    }
}

/// A command is its first word; its arguments are what follows, without the white space at
/// either end. A word alone is a command without arguments.
pub proof fn law_commands_have_arguments(w: Seq<char>, gap: Seq<char>, rest: Seq<char>, end: Seq<char>)
    requires
        is_word(w),
        gap.len() > 0,
        blank(gap),
        tight(rest),
        blank(end),
    ensures
        first_word(w + (gap + rest + end)) == w,
        arguments(w + (gap + rest + end)) == rest,
        first_word(w) == w,
        arguments(w) == Seq::<char>::empty(),
{
    let tail = gap + rest + end;
    let cmd = w + tail;
    assert(tail[0] == gap[0] && white_space(gap[0]));
    lemma_word_before(w, tail);
    assert(cmd.take(w.len() as int) =~= w);
    assert(cmd.skip(w.len() as int) =~= tail);
    lemma_trimmed_between(gap, rest, end);
    lemma_word_alone(w);
    assert(w.take(w.len() as int) =~= w);
    assert(w.skip(w.len() as int) =~= Seq::<char>::empty());
    assert(trimmed(Seq::<char>::empty()) =~= Seq::<char>::empty());
}

proof fn lemma_word_alone(w: Seq<char>)
    requires
        forall|i: int| 0 <= i < w.len() ==> !white_space(#[trigger] w[i]),
    ensures
        word_len(w) == w.len(),
    decreases w.len(),
{
    if w.len() > 0 {
        assert(!white_space(w[0]));
        lemma_word_alone(w.skip(1));
    }
}

/// The lines that hold a text somewhere in them, each with its end.
pub open spec fn holding(ls: Seq<Seq<char>>, pat: Seq<char>) -> Seq<char>
    decreases ls.len(),
{
    if ls.len() == 0 {
        Seq::empty()
    } else {
        let line = ls.last();
        holding(ls.drop_last(), pat) + (if exists|a: Seq<char>, b: Seq<char>|
            line == #[trigger] (a + pat + b) {
            line.push('\n')
        } else {
            Seq::empty()
        })
    }
}

/// Searching prints the lines of the input that hold the pattern, in order, and no others.
pub proof fn law_grep_prints_what_matches(t: Seq<char>, pat: Seq<char>)
    ensures
        grep_s(t, pat) == holding(lines(t), pat),
{
    lemma_grep(lines(t), pat);
}

proof fn lemma_grep(ls: Seq<Seq<char>>, pat: Seq<char>)
    ensures
        flat(Seq::new(ls.len(), |i: int| matching(ls[i], pat))) == holding(ls, pat),
    decreases ls.len(),
{
    let all = Seq::new(ls.len(), |i: int| matching(ls[i], pat));
    if ls.len() > 0 {
        let before = ls.drop_last();
        lemma_grep(before, pat);
        assert(all.drop_last() =~= Seq::new(before.len(), |i: int| matching(before[i], pat)));
        let line = ls.last();
        reveal_strlit("\n");
        assert(line + "\n"@ =~= line.push('\n'));
        if occurs(line, pat) {
            let i = choose|i: int|
                0 <= i <= line.len() - pat.len() && #[trigger] line.subrange(i, i + pat.len())
                    == pat;
            let (a, b) = (line.take(i), line.skip(i + pat.len()));
            assert(a + pat + b =~= line);
        }
        if exists|a: Seq<char>, b: Seq<char>| line == #[trigger] (a + pat + b) {
            let (a, b) = choose|a: Seq<char>, b: Seq<char>| line == #[trigger] (a + pat + b);
            let at = a.len() as int;
            assert(line.subrange(at, at + pat.len()) =~= pat);
        }
    }
}

} // verus!
