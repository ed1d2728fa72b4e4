//! The line editor of the prompt, and the command history.

use crate::bytes::str_eq;
use crate::driver::console::{
    ARROW_DOWN, ARROW_LEFT, ARROW_RIGHT, ARROW_UP, DELETE, END, HOME, PAGE_DOWN, PAGE_UP,
};
use crate::shell::parse::{find_char, lines, split_lines, without_cr};
use crate::text::{contents, lossy, lossy_text, push_repeated, repeated, trim, trimmed};
use vstd::prelude::*;

verus! {

/// How many command lines are kept.
pub const HISTORY_LIMIT: usize = 64;

/// The history after a command line: a repeat of the last line is not kept, and
/// the oldest line goes when there are too many.
pub open spec fn pushed_s(h: Seq<Seq<char>>, line: Seq<char>) -> Seq<Seq<char>> {
    if h.len() > 0 && h.last() == line {
        h
    } else if h.len() >= HISTORY_LIMIT {
        h.push(line).skip(1)
    } else {
        h.push(line)
    }
}

/// The history as it is saved: one line for each entry.
pub open spec fn saved_s(h: Seq<Seq<char>>) -> Seq<char>
    decreases h.len(),
{
    if h.len() == 0 {
        Seq::empty()
    } else {
        h[0] + seq!['\n'] + saved_s(h.skip(1))
    }
}

/// The history after lines of a saved one were added, in turn. Lines that are
/// empty but for white space are left out.
pub open spec fn loaded_s(h: Seq<Seq<char>>, saved: Seq<Seq<char>>) -> Seq<Seq<char>>
    decreases saved.len(),
{
    if saved.len() == 0 {
        h
    } else {
        let line = trimmed(saved[0]);
        loaded_s(
            if line.len() == 0 {
                h
            } else {
                pushed_s(h, line)
            },
            saved.skip(1),
        )
    }
}

/// The command history, oldest line first.
pub struct History {
    entries: Vec<String>,
}

impl History {
    pub closed spec fn view(&self) -> Seq<Seq<char>> {
        contents(self.entries@)
    }

    /// No more lines are kept than the limit says.
    pub closed spec fn wf(&self) -> bool {
        self.entries@.len() <= HISTORY_LIMIT
    }

    /// An empty history.
    pub fn new() -> (r: History)
        ensures
            r.wf(),
            r@ == Seq::<Seq<char>>::empty(),
    {
        let r = History { entries: Vec::new() };
        assert(r@ =~= Seq::<Seq<char>>::empty());
        r
    }

    /// How many lines there are.
    pub fn len(&self) -> (r: usize)
        ensures
            r == self@.len(),
    {
        self.entries.len()
    }

    /// A line.
    pub fn get(&self, i: usize) -> (r: &str)
        requires
            i < self@.len(),
        ensures
            r@ == self@[i as int],
    {
        self.entries[i].as_str()
    }

    /// Adds a command line. Returns whether the history changed, and is to be
    /// saved.
    pub fn push(&mut self, line: &str) -> (changed: bool)
        requires
            old(self).wf(),
        ensures
            final(self).wf(),
            final(self)@ == pushed_s(old(self)@, line@),
            changed == !(old(self)@.len() > 0 && old(self)@.last() == line@),
    {
        let n: usize = self.entries.len();
        if n > 0 && str_eq(self.entries[n - 1].as_str(), line) {
            return false;
        }
        let ghost before = self@;
        self.entries.push(line.to_owned());
        assert(self@ =~= before.push(line@));
        if self.entries.len() > HISTORY_LIMIT {
            let ghost longer = self@;
            let _ = self.entries.remove(0);
            assert(self@ =~= longer.skip(1));
        }
        true
    }

    /// The history as it is saved.
    pub fn save(&self) -> (r: String)
        ensures
            r@ == saved_s(self@),
    {
        let mut s = String::new();
        let mut i: usize = 0;
        let ghost all = self@;
        assert(all.skip(0) =~= all);
        assert(s@ + saved_s(all) =~= saved_s(all));
        while i < self.entries.len()
            invariant
                i <= self.entries@.len(),
                all == self@,
                s@ + saved_s(all.skip(i as int)) == saved_s(all),
            decreases self.entries@.len() - i,
        {
            let ghost before = s@;
            let ghost rest = all.skip(i as int);
            s.append(self.entries[i].as_str());
            s.push('\n');
            proof {
                assert(rest[0] == self.entries@[i as int]@);
                assert(rest.skip(1) =~= all.skip(i + 1));
                assert(s@ + saved_s(all.skip(i + 1)) =~= before + saved_s(rest));
            }
            i = i + 1;
        }
        assert(s@ + saved_s(all.skip(i as int)) =~= s@);
        s
    }

    /// Adds the lines of a saved history.
    pub fn load(&mut self, bytes: &[u8])
        requires
            old(self).wf(),
        ensures
            final(self).wf(),
            final(self)@ == loaded_s(old(self)@, lines(lossy(bytes@))),
    {
        let text = lossy_text(bytes);
        let saved = split_lines(text.as_str());
        let ghost all = contents(saved@);
        let ghost want = loaded_s(self@, all);
        let mut i: usize = 0;
        assert(all.skip(0) =~= all);
        while i < saved.len()
            invariant
                self.wf(),
                i <= saved@.len(),
                all == contents(saved@),
                want == loaded_s(self@, all.skip(i as int)),
            decreases saved@.len() - i,
        {
            assert(all.skip(i as int)[0] == saved@[i as int]@);
            assert(all.skip(i as int).skip(1) =~= all.skip(i + 1));
            let line = trim(saved[i].as_str());
            if line.unicode_len() > 0 {
                self.push(line);
            }
            i = i + 1;
        }
    }
}

/// The editor: the line, the cursor in it, how many characters of it were
/// painted, the history that is being browsed and where, and the line that was
/// being edited before that.
#[verifier::ext_equal]
pub struct EditorView {
    pub prompt: Seq<char>,
    pub chars: Seq<char>,
    pub cursor: int,
    pub painted: int,
    pub hist: Seq<Seq<char>>,
    pub hist_pos: Option<int>,
    pub draft: Seq<char>,
}

/// The line editor.
pub struct LineEditor {
    prompt: String,
    chars: Vec<char>,
    cursor: usize,
    painted: usize,
    hist: Vec<String>,
    hist_pos: Option<usize>,
    draft: Vec<char>,
}

/// What repainting a line prints: the prompt and the line from the left edge,
/// blanks over what was left of a longer line, and steps back to the cursor.
pub open spec fn repaint(v: EditorView) -> Seq<char> {
    let extra = v.painted - v.chars.len();
    seq!['\r'] + v.prompt + v.chars + repeated(' ', extra) + repeated('\x08', extra) + repeated(
        '\x08',
        v.chars.len() - v.cursor,
    )
}

/// An editor after its line was repainted.
pub open spec fn painted(v: EditorView) -> EditorView {
    EditorView { painted: v.chars.len() as int, ..v }
}

/// Inserting a character before the cursor.
pub open spec fn insert_s(v: EditorView, c: char) -> EditorView {
    EditorView { chars: v.chars.insert(v.cursor, c), cursor: v.cursor + 1, ..v }
}

/// Deleting the character before the cursor.
pub open spec fn backspace_s(v: EditorView) -> EditorView {
    EditorView { chars: v.chars.remove(v.cursor - 1), cursor: v.cursor - 1, ..v }
}

/// Replacing the whole line.
pub open spec fn set_line_s(v: EditorView, line: Seq<char>) -> EditorView {
    EditorView { chars: line, cursor: line.len() as int, ..v }
}

/// An editor whose line changed, with what that prints.
pub open spec fn changed(v: EditorView) -> (Seq<char>, EditorView) {
    (repaint(v), painted(v))
}

/// An editor where nothing changed.
pub open spec fn kept(v: EditorView) -> (Seq<char>, EditorView) {
    (Seq::empty(), v)
}

/// Going to an older line of the history. The first time the history is looked
/// at as it then is, and the line that was being edited is kept.
pub open spec fn prev_s(v: EditorView, history: Seq<Seq<char>>) -> (Seq<char>, EditorView) {
    match v.hist_pos {
        None => if history.len() == 0 {
            (Seq::empty(), EditorView { hist: history, ..v })
        } else {
            let i = history.len() - 1;
            changed(
                set_line_s(
                    EditorView { hist: history, hist_pos: Some(i), draft: v.chars, ..v },
                    history[i],
                ),
            )
        },
        Some(i) => if i == 0 {
            kept(v)
        } else {
            changed(set_line_s(EditorView { hist_pos: Some(i - 1), ..v }, v.hist[i - 1]))
        },
    }
}

/// Going to a newer line of the history, and from the newest back to the line
/// that was being edited.
pub open spec fn next_s(v: EditorView) -> (Seq<char>, EditorView) {
    match v.hist_pos {
        None => kept(v),
        Some(i) => if i + 1 < v.hist.len() {
            changed(set_line_s(EditorView { hist_pos: Some(i + 1), ..v }, v.hist[i + 1]))
        } else {
            changed(set_line_s(EditorView { hist_pos: None, ..v }, v.draft))
        },
    }
}

/// An editor with an empty line.
pub open spec fn cleared(v: EditorView) -> EditorView {
    EditorView {
        chars: Seq::empty(),
        cursor: 0,
        painted: 0,
        hist_pos: None,
        draft: Seq::empty(),
        ..v
    }
}

/// The characters of a text.
fn chars_of(s: &str) -> (r: Vec<char>)
    ensures
        r@ == s@,
{
    let n: usize = s.unicode_len();
    let mut v: Vec<char> = Vec::new();
    let mut i: usize = 0;
    while i < n
        invariant
            n == s@.len(),
            i <= n,
            v@ == s@.take(i as int),
        decreases n - i,
    {
        v.push(s.get_char(i));
        i = i + 1;
        assert(v@ =~= s@.take(i as int));
    }
    assert(v@ =~= s@);
    v
}

/// Appends characters of a line.
fn push_chars(out: &mut String, v: &Vec<char>, from: usize, to: usize)
    requires
        from <= to <= v@.len(),
    ensures
        final(out)@ == old(out)@ + v@.subrange(from as int, to as int),
{
    let mut i: usize = from;
    while i < to
        invariant
            from <= i <= to <= v@.len(),
            out@ == old(out)@ + v@.subrange(from as int, i as int),
        decreases to - i,
    {
        out.push(v[i]);
        i = i + 1;
        assert(out@ =~= old(out)@ + v@.subrange(from as int, i as int));
    }
    assert(out@ =~= old(out)@ + v@.subrange(from as int, to as int));
}

/// The same characters once more.
fn copy_chars(v: &Vec<char>) -> (r: Vec<char>)
    ensures
        r@ == v@,
{
    let mut r: Vec<char> = Vec::new();
    let mut i: usize = 0;
    while i < v.len()
        invariant
            i <= v@.len(),
            r@ == v@.take(i as int),
        decreases v@.len() - i,
    {
        r.push(v[i]);
        i = i + 1;
        assert(r@ =~= v@.take(i as int));
    }
    assert(r@ =~= v@);
    r
}

impl LineEditor {
    pub closed spec fn view(&self) -> EditorView {
        EditorView {
            prompt: self.prompt@,
            chars: self.chars@,
            cursor: self.cursor as int,
            painted: self.painted as int,
            hist: contents(self.hist@),
            hist_pos: match self.hist_pos {
                Some(i) => Some(i as int),
                None => None,
            },
            draft: self.draft@,
        }
    }

    /// The cursor is within the line, and so is the place in the history.
    pub closed spec fn wf(&self) -> bool {
        &&& self.cursor <= self.chars@.len()
        &&& self.hist_pos matches Some(i) ==> i < self.hist@.len()
    }

    /// An editor with an empty line.
    pub fn new(prompt: &str) -> (r: LineEditor)
        ensures
            r.wf(),
            r@ == (EditorView {
                prompt: prompt@,
                chars: Seq::empty(),
                cursor: 0,
                painted: 0,
                hist: Seq::empty(),
                hist_pos: None,
                draft: Seq::empty(),
            }),
    {
        let r = LineEditor {
            prompt: prompt.to_owned(),
            chars: Vec::new(),
            cursor: 0,
            painted: 0,
            hist: Vec::new(),
            hist_pos: None,
            draft: Vec::new(),
        };
        assert(r@.hist =~= Seq::empty());
        r
    }

    /// Repaints the line.
    fn redraw(&mut self) -> (out: String)
        requires
            old(self).wf(),
        ensures
            final(self).wf(),
            (out@, final(self)@) == changed(old(self)@),
    {
        let mut out = String::new();
        out.push('\r');
        out.append(self.prompt.as_str());
        let n: usize = self.chars.len();
        push_chars(&mut out, &self.chars, 0, n);
        let extra: usize = if self.painted > n {
            self.painted - n
        } else {
            0
        };
        push_repeated(&mut out, ' ', extra);
        push_repeated(&mut out, '\x08', extra);
        push_repeated(&mut out, '\x08', n - self.cursor);
        proof {
            let v = self@;
            assert(self.chars@.subrange(0, n as int) =~= self.chars@);
            assert(repeated(' ', v.painted - v.chars.len()) =~= repeated(' ', extra as int));
            assert(repeated('\x08', v.painted - v.chars.len()) =~= repeated('\x08', extra as int));
            assert(out@ =~= repaint(v));
        }
        self.painted = n;
        out
    }

    /// Inserts a character at the cursor.
    pub fn insert(&mut self, c: char) -> (out: String)
        requires
            old(self).wf(),
            old(self)@.chars.len() < usize::MAX,
        ensures
            final(self).wf(),
            (out@, final(self)@) == changed(insert_s(old(self)@, c)),
    {
        self.chars.insert(self.cursor, c);
        self.cursor = self.cursor + 1;
        assert(self@ == insert_s(old(self)@, c));
        self.redraw()
    }

    /// Deletes the character before the cursor.
    pub fn backspace(&mut self) -> (out: String)
        requires
            old(self).wf(),
        ensures
            final(self).wf(),
            (out@, final(self)@) == (if old(self)@.cursor > 0 {
                changed(backspace_s(old(self)@))
            } else {
                kept(old(self)@)
            }),
    {
        if self.cursor == 0 {
            return String::new();
        }
        self.cursor = self.cursor - 1;
        let _ = self.chars.remove(self.cursor);
        assert(self@ == backspace_s(old(self)@));
        self.redraw()
    }

    /// Deletes the character under the cursor.
    pub fn delete(&mut self) -> (out: String)
        requires
            old(self).wf(),
        ensures
            final(self).wf(),
            (out@, final(self)@) == (if old(self)@.cursor < old(self)@.chars.len() {
                changed(
                    EditorView {
                        chars: old(self)@.chars.remove(old(self)@.cursor),
                        ..old(self)@
                    },
                )
            } else {
                kept(old(self)@)
            }),
    {
        if self.cursor >= self.chars.len() {
            return String::new();
        }
        let _ = self.chars.remove(self.cursor);
        self.redraw()
    }

    /// Moves the cursor to the left.
    pub fn left(&mut self) -> (out: String)
        requires
            old(self).wf(),
        ensures
            final(self).wf(),
            (out@, final(self)@) == (if old(self)@.cursor > 0 {
                (seq!['\x08'], EditorView { cursor: old(self)@.cursor - 1, ..old(self)@ })
            } else {
                kept(old(self)@)
            }),
    {
        let mut out = String::new();
        if self.cursor > 0 {
            self.cursor = self.cursor - 1;
            out.push('\x08');
            assert(out@ =~= seq!['\x08']);
        }
        out
    }

    /// Moves the cursor to the right.
    pub fn right(&mut self) -> (out: String)
        requires
            old(self).wf(),
        ensures
            final(self).wf(),
            (out@, final(self)@) == (if old(self)@.cursor < old(self)@.chars.len() {
                (
                    seq![old(self)@.chars[old(self)@.cursor]],
                    EditorView { cursor: old(self)@.cursor + 1, ..old(self)@ },
                )
            } else {
                kept(old(self)@)
            }),
    {
        let mut out = String::new();
        if self.cursor < self.chars.len() {
            out.push(self.chars[self.cursor]);
            assert(out@ =~= seq![self.chars@[self.cursor as int]]);
            self.cursor = self.cursor + 1;
        }
        out
    }

    /// Moves the cursor to the start of the line.
    pub fn home(&mut self) -> (out: String)
        requires
            old(self).wf(),
        ensures
            final(self).wf(),
            out@ == repeated('\x08', old(self)@.cursor),
            final(self)@ == (EditorView { cursor: 0, ..old(self)@ }),
    {
        let mut out = String::new();
        push_repeated(&mut out, '\x08', self.cursor);
        assert(out@ =~= repeated('\x08', self@.cursor));
        self.cursor = 0;
        out
    }

    /// Moves the cursor to the end of the line.
    pub fn end(&mut self) -> (out: String)
        requires
            old(self).wf(),
        ensures
            final(self).wf(),
            out@ == old(self)@.chars.skip(old(self)@.cursor),
            final(self)@ == (EditorView { cursor: old(self)@.chars.len() as int, ..old(self)@ }),
    {
        let mut out = String::new();
        let n: usize = self.chars.len();
        push_chars(&mut out, &self.chars, self.cursor, n);
        assert(out@ =~= self@.chars.skip(self@.cursor));
        self.cursor = n;
        out
    }

    /// Replaces the whole line.
    fn set_line(&mut self, line: Vec<char>) -> (out: String)
        requires
            old(self).hist_pos matches Some(i) ==> i < old(self).hist@.len(),
        ensures
            final(self).wf(),
            (out@, final(self)@) == changed(set_line_s(old(self)@, line@)),
    {
        self.chars = line;
        self.cursor = self.chars.len();
        self.redraw()
    }

    /// Recalls an older line.
    pub fn history_prev(&mut self, history: &History) -> (out: String)
        requires
            old(self).wf(),
        ensures
            final(self).wf(),
            (out@, final(self)@) == prev_s(old(self)@, history@),
    {
        match self.hist_pos {
            None => {
                let n: usize = history.len();
                let mut hist: Vec<String> = Vec::new();
                let mut i: usize = 0;
                while i < n
                    invariant
                        n == history@.len(),
                        i <= n,
                        contents(hist@) == history@.take(i as int),
                    decreases n - i,
                {
                    let ghost before = contents(hist@);
                    let line = history.get(i).to_owned();
                    hist.push(line);
                    assert(contents(hist@) =~= before.push(line@));
                    i = i + 1;
                    assert(contents(hist@) =~= history@.take(i as int));
                }
                assert(contents(hist@) =~= history@);
                self.hist = hist;
                if n == 0 {
                    return String::new();
                }
                self.draft = copy_chars(&self.chars);
                self.hist_pos = Some(n - 1);
                let line = chars_of(history.get(n - 1));
                self.set_line(line)
            },
            Some(i) => {
                if i == 0 {
                    return String::new();
                }
                self.hist_pos = Some(i - 1);
                assert(self@.hist[i - 1] == self.hist@[i - 1]@);
                let line = chars_of(self.hist[i - 1].as_str());
                self.set_line(line)
            },
        }
    }

    /// Recalls a newer line, or the one that was being edited.
    pub fn history_next(&mut self) -> (out: String)
        requires
            old(self).wf(),
        ensures
            final(self).wf(),
            (out@, final(self)@) == next_s(old(self)@),
    {
        match self.hist_pos {
            None => String::new(),
            Some(i) => {
                let n: usize = self.hist.len();
                if n - i > 1 {
                    self.hist_pos = Some(i + 1);
                    assert(self@.hist[i + 1] == self.hist@[i + 1]@);
                    let line = chars_of(self.hist[i + 1].as_str());
                    self.set_line(line)
                } else {
                    self.hist_pos = None;
                    let line = copy_chars(&self.draft);
                    self.set_line(line)
                }
            },
        }
    }

    /// Takes the line, enters it into the history unless it is empty, and begins
    /// a new one. Also returns whether the history is to be saved.
    pub fn take(&mut self, history: &mut History) -> (r: (String, bool))
        requires
            old(self).wf(),
            old(history).wf(),
        ensures
            final(self).wf(),
            final(history).wf(),
            final(self)@ == cleared(old(self)@),
            r.0@ == old(self)@.chars,
            ({
                let line = trimmed(old(self)@.chars);
                if line.len() == 0 {
                    final(history)@ == old(history)@ && !r.1
                } else {
                    final(history)@ == pushed_s(old(history)@, line) && r.1 == !(old(
                        history,
                    )@.len() > 0 && old(history)@.last() == line)
                }
            }),
    {
        let n: usize = self.chars.len();
        let mut line = String::new();
        push_chars(&mut line, &self.chars, 0, n);
        assert(line@ =~= self.chars@);
        let mut save: bool = false;
        let t = trim(line.as_str());
        if t.unicode_len() > 0 {
            save = history.push(t);
        }
        self.chars = Vec::new();
        self.cursor = 0;
        self.painted = 0;
        self.hist_pos = None;
        self.draft = Vec::new();
        (line, save)
    }
}

/// What a key does at the prompt.
#[derive(Debug, Clone, Copy, PartialEq, Eq, Structural)]
pub enum KeyAction {
    Run,
    Backspace,
    Delete,
    Left,
    Right,
    Previous,
    Next,
    Home,
    End,
    ScrollUp,
    ScrollDown,
    Insert(char),
    Ignore,
}

/// What a key does at the prompt.
pub open spec fn key_action_s(c: char) -> KeyAction {
    if c == '\n' || c == '\r' {
        KeyAction::Run
    } else if c == '\x08' {
        KeyAction::Backspace
    } else if c == DELETE {
        KeyAction::Delete
    } else if c == ARROW_LEFT {
        KeyAction::Left
    } else if c == ARROW_RIGHT {
        KeyAction::Right
    } else if c == ARROW_UP {
        KeyAction::Previous
    } else if c == ARROW_DOWN {
        KeyAction::Next
    } else if c == HOME {
        KeyAction::Home
    } else if c == END {
        KeyAction::End
    } else if c == PAGE_UP {
        KeyAction::ScrollUp
    } else if c == PAGE_DOWN {
        KeyAction::ScrollDown
    } else if c as int >= 0x20 {
        KeyAction::Insert(c)
    } else {
        KeyAction::Ignore
    }
}

/// What a key does at the prompt.
pub fn key_action(c: char) -> (r: KeyAction)
    ensures
        r == key_action_s(c),
{
    if c == '\n' || c == '\r' {
        KeyAction::Run
    } else if c == '\x08' {
        KeyAction::Backspace
    } else if c == DELETE {
        KeyAction::Delete
    } else if c == ARROW_LEFT {
        KeyAction::Left
    } else if c == ARROW_RIGHT {
        KeyAction::Right
    } else if c == ARROW_UP {
        KeyAction::Previous
    } else if c == ARROW_DOWN {
        KeyAction::Next
    } else if c == HOME {
        KeyAction::Home
    } else if c == END {
        KeyAction::End
    } else if c == PAGE_UP {
        KeyAction::ScrollUp
    } else if c == PAGE_DOWN {
        KeyAction::ScrollDown
    } else if c as u32 >= 0x20 {
        KeyAction::Insert(c)
    } else {
        KeyAction::Ignore
    }
}

/// What follows a key besides its output.
#[derive(Debug)]
pub enum KeyThen {
    Nothing,
    /// Run the line; the history is to be saved first if it changed.
    Run { line: String, save: bool },
    /// Scroll the window back or forth by half a page.
    Scroll { back: bool },
}

/// What a key that edits the line does: its output, and the editor after it.
pub open spec fn edit_s(v: EditorView, history: Seq<Seq<char>>, c: char) -> (Seq<char>, EditorView) {
    match key_action_s(c) {
        KeyAction::Backspace => if v.cursor > 0 {
            changed(backspace_s(v))
        } else {
            kept(v)
        },
        KeyAction::Delete => if v.cursor < v.chars.len() {
            changed(EditorView { chars: v.chars.remove(v.cursor), ..v })
        } else {
            kept(v)
        },
        KeyAction::Left => if v.cursor > 0 {
            (seq!['\x08'], EditorView { cursor: v.cursor - 1, ..v })
        } else {
            kept(v)
        },
        KeyAction::Right => if v.cursor < v.chars.len() {
            (seq![v.chars[v.cursor]], EditorView { cursor: v.cursor + 1, ..v })
        } else {
            kept(v)
        },
        KeyAction::Home => (repeated('\x08', v.cursor), EditorView { cursor: 0, ..v }),
        KeyAction::End => (
            v.chars.skip(v.cursor),
            EditorView { cursor: v.chars.len() as int, ..v },
        ),
        KeyAction::Previous => prev_s(v, history),
        KeyAction::Next => next_s(v),
        KeyAction::Insert(c) => changed(insert_s(v, c)),
        _ => kept(v),
    }
}

/// Handles a key at the prompt: edits the line, recalls an earlier one, or says
/// what to do outside.
pub fn handle_key(editor: &mut LineEditor, history: &mut History, c: char) -> (r: (String, KeyThen))
    requires
        old(editor).wf(),
        old(history).wf(),
        old(editor)@.chars.len() < usize::MAX,
    ensures
        final(editor).wf(),
        final(history).wf(),
        match key_action_s(c) {
            KeyAction::Run => {
                let line = old(editor)@.chars;
                &&& r.0@ == seq!['\n']
                &&& final(editor)@ == cleared(old(editor)@)
                &&& r.1 is Run
                &&& r.1->line@ == line
                &&& final(history)@ == (if trimmed(line).len() == 0 {
                    old(history)@
                } else {
                    pushed_s(old(history)@, trimmed(line))
                })
                &&& r.1->save == (trimmed(line).len() > 0 && !(old(history)@.len() > 0 && old(
                    history,
                )@.last() == trimmed(line)))
            },
            KeyAction::ScrollUp => {
                &&& r.0@ == Seq::<char>::empty()
                &&& r.1 == (KeyThen::Scroll { back: true })
                &&& final(editor)@ == old(editor)@
                &&& final(history)@ == old(history)@
            },
            KeyAction::ScrollDown => {
                &&& r.0@ == Seq::<char>::empty()
                &&& r.1 == (KeyThen::Scroll { back: false })
                &&& final(editor)@ == old(editor)@
                &&& final(history)@ == old(history)@
            },
            _ => {
                &&& (r.0@, final(editor)@) == edit_s(old(editor)@, old(history)@, c)
                &&& r.1 is Nothing
                &&& final(history)@ == old(history)@
            },
        },
{
    let out = match key_action(c) {
        KeyAction::Run => {
            let mut nl = String::new();
            nl.push('\n');
            assert(nl@ =~= seq!['\n']);
            let (line, save) = editor.take(history);
            return (nl, KeyThen::Run { line, save });
        },
        KeyAction::ScrollUp => {
            let s = String::new();
            assert(s@ =~= Seq::<char>::empty());
            return (s, KeyThen::Scroll { back: true });
        },
        KeyAction::ScrollDown => {
            let s = String::new();
            assert(s@ =~= Seq::<char>::empty());
            return (s, KeyThen::Scroll { back: false });
        },
        KeyAction::Backspace => editor.backspace(),
        KeyAction::Delete => editor.delete(),
        KeyAction::Left => editor.left(),
        KeyAction::Right => editor.right(),
        KeyAction::Home => editor.home(),
        KeyAction::End => editor.end(),
        KeyAction::Previous => editor.history_prev(history),
        KeyAction::Next => editor.history_next(),
        KeyAction::Insert(c) => editor.insert(c),
        KeyAction::Ignore => {
            let s = String::new();
            assert(s@ =~= Seq::<char>::empty());
            s
        },
    };
    (out, KeyThen::Nothing)
}

/// What a shell does in a round of its loop.
#[derive(Debug, Clone, Copy, PartialEq, Eq, Structural)]
pub enum Round {
    /// Its window is gone: sleep this many ticks.
    Parked(u64),
    /// Another window has the keyboard: sleep this many ticks.
    Unfocused(u64),
    /// Handle the keys that were typed, then let others run.
    Typing,
}

/// Decides on a round of a shell's loop: whether the saved history is to be
/// loaded first, and what to do then.
pub fn round(loaded: bool, mounted: bool, owns: bool, focused: bool) -> (r: (bool, Round))
    ensures
        r.0 == (!loaded && mounted),
        r.1 == (if !owns {
            Round::Parked(5)
        } else if !focused {
            Round::Unfocused(2)
        } else {
            Round::Typing
        }),
{
    let next = if !owns {
        Round::Parked(5)
    } else if !focused {
        Round::Unfocused(2)
    } else {
        Round::Typing
    };
    (!loaded && mounted, next)
}

/// The file that the history is saved to.
pub const HISTORY_FILE: &'static str = "/.pickleos_history";

/// The prompt.
pub const PROMPT: &'static str = "pickleos> ";

/// What a shell shows first.
pub const BANNER: &'static str = "+------------------------------------------+\n\
    |  PICKLE OS shell                         |\n\
    |  type 'help' for the list of commands    |\n\
    +------------------------------------------+\n";

/// Deleting what was just inserted leaves the line as it was.
pub proof fn law_backspace_undoes_insert(v: EditorView, c: char)
    requires
        0 <= v.cursor <= v.chars.len(),
    ensures
        backspace_s(insert_s(v, c)) == v,
{
    assert(backspace_s(insert_s(v, c)).chars =~= v.chars);
}

/// Going to the newest line of the history and back gives the line that was
/// being edited.
pub proof fn law_history_returns_to_the_draft(v: EditorView, history: Seq<Seq<char>>)
    requires
        v.hist_pos is None,
        history.len() > 0,
    ensures
        next_s(prev_s(v, history).1).1.chars == v.chars,
        next_s(prev_s(v, history).1).1.hist_pos is None,
{
}

/// The history is never longer than its limit, and the newest line is last.
pub proof fn law_history_is_bounded(h: Seq<Seq<char>>, line: Seq<char>)
    requires
        h.len() <= HISTORY_LIMIT,
    ensures
        pushed_s(h, line).len() <= HISTORY_LIMIT,
        pushed_s(h, line).len() > 0,
        pushed_s(h, line).last() == line,
{
}

/// A history that was saved is loaded as it was: its entries are lines without
/// white space at their ends, not empty, and no two in a row are equal.
pub proof fn law_history_survives(h: Seq<Seq<char>>)
    requires
        h.len() <= HISTORY_LIMIT,
        forall|i: int|
            0 <= i < h.len() ==> (#[trigger] h[i]).len() > 0 && trimmed(h[i]) == h[i]
                && !h[i].contains('\n') && h[i].last() != '\r',
        forall|i: int| 0 <= i < h.len() - 1 ==> #[trigger] h[i] != h[i + 1],
    ensures
        loaded_s(Seq::empty(), lines(saved_s(h))) == h,
{
    lemma_saved_lines(h);
    assert(Seq::<Seq<char>>::empty() =~= h.take(0));
    lemma_loaded(h, 0);
    assert(h.skip(0) =~= h);
}

proof fn lemma_saved_lines(h: Seq<Seq<char>>)
    requires
        forall|i: int| 0 <= i < h.len() ==> !(#[trigger] h[i]).contains('\n'),
        forall|i: int| 0 <= i < h.len() ==> (#[trigger] h[i]).len() > 0 && h[i].last() != '\r',
    ensures
        lines(saved_s(h)) == h,
    decreases h.len(),
{
    if h.len() > 0 {
        let s = saved_s(h);
        let rest = h.skip(1);
        assert forall|i: int| 0 <= i < rest.len() implies !(#[trigger] rest[i]).contains('\n')
            && rest[i].len() > 0 && rest[i].last() != '\r' by {
            assert(rest[i] == h[i + 1]);
        }
        lemma_saved_lines(rest);
        assert(s =~= h[0] + (seq!['\n'] + saved_s(rest)));
        lemma_find_after(h[0], seq!['\n'] + saved_s(rest));
        assert(s.take(h[0].len() as int) =~= h[0]);
        assert(s.skip(h[0].len() as int + 1) =~= saved_s(rest));
        assert(without_cr(h[0]) == h[0]);
        assert(lines(s) =~= h);
    } else {
        assert(lines(saved_s(h)) =~= h);
    }
}

proof fn lemma_find_after(a: Seq<char>, b: Seq<char>)
    requires
        !a.contains('\n'),
        b.len() > 0,
        b[0] == '\n',
    ensures
        find_char(a + b, '\n') == a.len(),
    decreases a.len(),
{
    if a.len() == 0 {
        assert(a + b =~= b);
    } else {
        assert(a.contains(a[0]));
        assert((a + b).skip(1) =~= a.skip(1) + b);
        assert forall|i: int| 0 <= i < a.skip(1).len() implies a.skip(1)[i] != '\n' by {
            assert(a.contains(a[i + 1]));
        }
        lemma_find_after(a.skip(1), b);
    }
}

proof fn lemma_loaded(h: Seq<Seq<char>>, k: int)
    requires
        h.len() <= HISTORY_LIMIT,
        0 <= k <= h.len(),
        forall|i: int|
            0 <= i < h.len() ==> (#[trigger] h[i]).len() > 0 && trimmed(h[i]) == h[i],
        forall|i: int| 0 <= i < h.len() - 1 ==> #[trigger] h[i] != h[i + 1],
    ensures
        loaded_s(h.take(k), h.skip(k)) == h,
    decreases h.len() - k,
{
    if k == h.len() {
        assert(h.take(k) =~= h);
    } else {
        assert(h.skip(k)[0] == h[k]);
        assert(h.skip(k).skip(1) =~= h.skip(k + 1));
        if k > 0 {
            assert(h.take(k).last() == h[k - 1]);
            assert(h[k - 1] != h[(k - 1) + 1]);
        }
        assert(h.take(k).push(h[k]) =~= h.take(k + 1));
        lemma_loaded(h, k + 1);
    }
}

/// The history keeps the last 64 lines, in the order in which they were entered; a line
/// that repeats the one before it is not kept twice.
pub proof fn law_history_keeps_the_newest(h: Seq<Seq<char>>, line: Seq<char>, i: int)
    requires
        h.len() <= 64,
        0 <= i < 64,
    ensures
        ({
            let h1 = pushed_s(h, line);
            let again = h.len() > 0 && h.last() == line;
            &&& again ==> h1 == h
            &&& !again ==> h1.len() == (if h.len() < 64 {
                h.len() + 1
            } else {
                64
            }) && h1.last() == line && (0 < i < h1.len() ==> h1[h1.len() - 1 - i] == h[h.len() - i])
        }),
{
}

} // verus!
