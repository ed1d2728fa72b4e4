//! The text console on the screen.

use super::draw::{glyph_paint, GLYPH_H, GLYPH_W};
use super::{block, moved_up, painted, whole, Color, FrameBuffer, FrameBufferInfo, ScreenView};
use vstd::prelude::*;
use vstd::string::StrSliceExecFns;

verus! {

/// The state of the console: where the next character goes, the size of the grid,
/// and the colours.
#[derive(Debug, Clone, Copy, PartialEq, Eq, Structural)]
pub struct Console {
    pub col: usize,
    pub row: usize,
    pub cols: usize,
    pub rows: usize,
    pub fg: Color,
    pub bg: Color,
    pub active: bool,
    pub suspended: bool,
}

/// What the console does on the screen.
pub enum ConsoleOp {
    /// Draws a character in a cell.
    Cell { c: char, col: int, row: int },
    /// Moves everything up by a line and clears the last one.
    Scroll,
}

/// The console after a character, before it looks for the edges.
pub open spec fn typed_s(k: Console, c: char) -> (int, int, Seq<ConsoleOp>) {
    let (col, row) = (k.col as int, k.row as int);
    if c == '\n' {
        (0, row + 1, Seq::empty())
    } else if c == '\r' {
        (0, row, Seq::empty())
    } else if c == '\t' {
        ((col + 4) / 4 * 4, row, Seq::empty())
    } else if c == '\x08' {
        if col > 0 {
            (col - 1, row, seq![ConsoleOp::Cell { c: ' ', col: col - 1, row }])
        } else {
            (col, row, Seq::empty())
        }
    } else {
        (col + 1, row, seq![ConsoleOp::Cell { c, col, row }])
    }
}

/// What a character does: a full line is continued on the next one, and below the
/// last line the console scrolls.
pub open spec fn char_s(k: Console, c: char) -> (Console, Seq<ConsoleOp>) {
    let (col0, row0, ops) = typed_s(k, c);
    let wraps = col0 >= k.cols;
    let col = if wraps {
        0
    } else {
        col0
    };
    let row = if wraps {
        row0 + 1
    } else {
        row0
    };
    if row >= k.rows {
        (
            Console { col: col as usize, row: (k.rows - 1) as usize, ..k },
            ops.push(ConsoleOp::Scroll),
        )
    } else {
        (Console { col: col as usize, row: row as usize, ..k }, ops)
    }
}

/// What a text does, character by character.
pub open spec fn text_s(k: Console, t: Seq<char>) -> (Console, Seq<ConsoleOp>)
    decreases t.len(),
{
    if t.len() == 0 {
        (k, Seq::empty())
    } else {
        let (k1, ops1) = text_s(k, t.drop_last());
        let (k2, ops2) = char_s(k1, t.last());
        (k2, ops1 + ops2)
    }
}

/// An operation was carried out on the screen.
pub open spec fn op_done(k: Console, v0: ScreenView, op: ConsoleOp, v1: ScreenView) -> bool {
    match op {
        ConsoleOp::Cell { c, col, row } => painted(
            v0,
            v1,
            glyph_paint(c, 8 * col, 8 * row, k.fg, k.bg),
        ),
        ConsoleOp::Scroll => {
            let last = v0.info.height as int / 8 * 8 - 8;
            painted(
                moved_up(v0),
                v1,
                block(0, last, v0.info.width as int, v0.info.height - last, k.bg),
            )
        },
    }
}

/// Operations were carried out in turn.
pub open spec fn ops_done(k: Console, v0: ScreenView, ops: Seq<ConsoleOp>, v1: ScreenView) -> bool
    decreases ops.len(),
{
    if ops.len() == 0 {
        v1 == v0
    } else {
        exists|v: ScreenView|
            ops_done(k, v0, ops.drop_last(), v) && #[trigger] op_done(k, v, ops.last(), v1)
    }
}

/// One more operation.
proof fn lemma_op(k: Console, v0: ScreenView, ops: Seq<ConsoleOp>, v1: ScreenView, op: ConsoleOp, v2: ScreenView)
    requires
        ops_done(k, v0, ops, v1),
        op_done(k, v1, op, v2),
    ensures
        ops_done(k, v0, ops.push(op), v2),
{
    assert(ops.push(op).drop_last() =~= ops);
    assert(ops.push(op).last() == op);
}

impl Console {
    /// The grid fits the screen, and the next character is within it.
    pub open spec fn wf(&self, i: FrameBufferInfo) -> bool {
        &&& self.cols == i.width / 8
        &&& self.rows == i.height / 8
        &&& self.cols > 0 && self.rows > 0 ==> self.col < self.cols && self.row < self.rows
        &&& i.width <= usize::MAX - 16
        &&& i.height <= usize::MAX - 16
    }

    /// The console of a screen, in phosphor green on the desktop's colour.
    pub fn init(info: &FrameBufferInfo) -> (r: Console)
        requires
            info.width <= usize::MAX - 16,
            info.height <= usize::MAX - 16,
        ensures
            r.wf(*info),
            r == (Console {
                col: 0,
                row: 0,
                cols: (info.width / 8) as usize,
                rows: (info.height / 8) as usize,
                fg: Color(0x00FF66),
                bg: Color(Color::DESKTOP),
                active: true,
                suspended: false,
            }),
    {
        Console {
            col: 0,
            row: 0,
            cols: info.width / GLYPH_W,
            rows: info.height / GLYPH_H,
            fg: Color(0x00FF66),
            bg: Color(Color::DESKTOP),
            active: true,
            suspended: false,
        }
    }

    /// Whether the console is in use.
    pub fn console_active(&self) -> (r: bool)
        ensures
            r == self.active,
    {
        self.active
    }

    /// Stops the console from drawing while something else owns the screen, or
    /// lets it draw again.
    pub fn suspend_console(&mut self, suspend: bool)
        ensures
            *final(self) == (Console { suspended: suspend, ..*old(self) }),
    {
        self.suspended = suspend;
    }

    /// Whether the console is stopped.
    pub fn console_suspended(&self) -> (r: bool)
        ensures
            r == self.suspended,
    {
        self.suspended
    }

    /// Sets the colours.
    pub fn set_console_colors(&mut self, fg: Color, bg: Color)
        ensures
            *final(self) == (Console { fg, bg, ..*old(self) }),
    {
        self.fg = fg;
        self.bg = bg;
    }

    /// Writes a text.
    pub fn console_write_str(&mut self, fb: &mut FrameBuffer, s: &str)
        requires
            old(fb).wf(),
            whole(old(fb)@.info),
            old(self).wf(old(fb)@.info),
        ensures
            final(fb).wf(),
            final(fb)@.info == old(fb)@.info,
            final(self).wf(final(fb)@.info),
            if old(self).cols == 0 || old(self).rows == 0 {
                *final(self) == *old(self) && final(fb)@ == old(fb)@
            } else {
                let (k, ops) = text_s(*old(self), s@);
                *final(self) == k && ops_done(*old(self), old(fb)@, ops, final(fb)@)
            },
    {
        if self.cols == 0 || self.rows == 0 {
            return ;
        }
        let ghost k0 = *self;
        let ghost v0 = fb@;
        let n: usize = s.unicode_len();
        let mut i: usize = 0;
        while i < n
            invariant
                fb.wf(),
                fb@.info == v0.info,
                whole(v0.info),
                k0.cols > 0,
                k0.rows > 0,
                self.wf(v0.info),
                *self == (Console { col: self.col, row: self.row, ..k0 }),
                n == s@.len(),
                i <= n,
                *self == text_s(k0, s@.take(i as int)).0,
                ops_done(k0, v0, text_s(k0, s@.take(i as int)).1, fb@),
            decreases n - i,
        {
            let c = s.get_char(i);
            let ghost k1 = *self;
            let ghost before = text_s(k0, s@.take(i as int)).1;
            assert(s@.take(i + 1).drop_last() =~= s@.take(i as int));
            self.put(fb, c, Ghost(k0), Ghost(v0), Ghost(before));
            i = i + 1;
        }
        assert(s@.take(n as int) =~= s@);
    }

    /// Writes a character.
    fn put(
        &mut self,
        fb: &mut FrameBuffer,
        c: char,
        Ghost(k0): Ghost<Console>,
        Ghost(v0): Ghost<ScreenView>,
        Ghost(before): Ghost<Seq<ConsoleOp>>,
    )
        requires
            old(fb).wf(),
            whole(old(fb)@.info),
            old(self).wf(old(fb)@.info),
            old(self).cols > 0,
            old(self).rows > 0,
            *old(self) == (Console { col: old(self).col, row: old(self).row, ..k0 }),
            ops_done(k0, v0, before, old(fb)@),
        ensures
            final(fb).wf(),
            final(fb)@.info == old(fb)@.info,
            final(self).wf(final(fb)@.info),
            *final(self) == char_s(*old(self), c).0,
            *final(self) == (Console { col: final(self).col, row: final(self).row, ..k0 }),
            ops_done(k0, v0, before + char_s(*old(self), c).1, final(fb)@),
    {
        let ghost k1 = *self;
        let ghost (_, _, ops) = typed_s(k1, c);
        let ghost v1 = fb@;
        let mut col: usize = self.col;
        let mut row: usize = self.row;
        if c == '\n' {
            col = 0;
            row = row + 1;
        } else if c == '\r' {
            col = 0;
        } else if c == '\t' {
            col = (col + 4) / 4 * 4;
        } else if c == '\x08' {
            if col > 0 {
                col = col - 1;
                fb.draw_glyph(' ', col * GLYPH_W, row * GLYPH_H, self.fg, self.bg);
            }
        } else {
            fb.draw_glyph(c, col * GLYPH_W, row * GLYPH_H, self.fg, self.bg);
            col = col + 1;
        }
        proof {
            if ops.len() == 0 {
                assert(before + ops =~= before);
            } else {
                assert(before + ops =~= before.push(ops[0]));
                lemma_op(k0, v0, before, v1, ops[0], fb@);
            }
            assert(ops_done(k0, v0, before + ops, fb@));
        }
        if col >= self.cols {
            col = 0;
            row = row + 1;
        }
        if row >= self.rows {
            let ghost v2 = fb@;
            scroll_up(fb, self.bg);
            row = self.rows - 1;
            proof {
                lemma_op(k0, v0, before + ops, v2, ConsoleOp::Scroll, fb@);
                assert((before + ops).push(ConsoleOp::Scroll) =~= before + ops.push(
                    ConsoleOp::Scroll,
                ));
            }
        }
        self.col = col;
        self.row = row;
    }
}

/// Scrolls up by a line, and clears the last one.
fn scroll_up(fb: &mut FrameBuffer, bg: Color)
    requires
        old(fb).wf(),
        whole(old(fb)@.info),
        old(fb)@.info.height >= 8,
    ensures
        final(fb).wf(),
        final(fb)@.info == old(fb)@.info,
        ({
            let i = old(fb)@.info;
            let last = i.height as int / 8 * 8 - 8;
            painted(
                moved_up(old(fb)@),
                final(fb)@,
                block(0, last, i.width as int, i.height - last, bg),
            )
        }),
{
    let info = fb.info();
    fb.move_up();
    let last: usize = (info.height / GLYPH_H - 1) * GLYPH_H;
    fb.fill_rect(0, last, info.width, info.height - last, bg);
}

/// The console never leaves its grid.
pub proof fn law_console_stays_on_its_grid(k: Console, c: char)
    requires
        k.col < k.cols,
        k.row < k.rows,
        k.cols + 8 <= usize::MAX,
        k.rows + 8 <= usize::MAX,
    ensures
        char_s(k, c).0.col < k.cols,
        char_s(k, c).0.row < k.rows,
{
}

} // verus!
