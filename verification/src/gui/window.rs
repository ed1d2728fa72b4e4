//! Windows: where they are, what the pointer hits, and what they look like.

use crate::framebuffer::list::{in_range, views, Draw, DrawView};
use crate::framebuffer::Color;
use vstd::prelude::*;

verus! {

pub const C_TITLE_ACTIVE: u32 = 0x2A6CB0;

pub const C_TITLE_INACTIVE: u32 = 0x3A4654;

pub const C_TITLE_TEXT: u32 = 0xFFFFFF;

pub const C_SHADOW: u32 = 0x04141E;

pub const C_BODY: u32 = 0xEDF1F5;

pub const C_BODY_TEXT: u32 = 0x10202C;

pub const C_BORDER: u32 = 0x05121C;

pub const C_CLOSE: u32 = 0xD24B4B;

pub const C_TERM_BG: u32 = 0x0B1A12;

pub const C_TERM_FG: u32 = 0x9CF0B0;

pub const C_TERM_CURSOR: u32 = 0x36C39B;

/// Height of a title bar.
pub const TITLE_H: i32 = 20;

/// Size of a close button.
pub const CLOSE_SZ: i32 = 14;

/// Width of a character cell of a terminal.
pub const TERM_CHAR_W: i32 = 8;

/// Height of a line of a terminal.
pub const TERM_LINE_H: i32 = 10;

/// Room left and right of a terminal's text.
pub const TERM_PAD_X: i32 = 8;

/// Room above and below a terminal's text.
pub const TERM_PAD_Y: i32 = 4;

/// No coordinate is larger: the far edge of a window, and what is drawn around it, is
/// then an `i32` too.
pub const LIMIT: i32 = 0x3fff_0000;

/// No terminal has more columns: its window is then no wider than the limit.
pub const MAX_COLS: i32 = 0x7ff_0000;

/// No terminal has more rows: its window is then no higher than the limit.
pub const MAX_ROWS: i32 = 0x600_0000;

/// No text has more characters or lines: where it ends is then an `u32`.
pub const MAX_TEXT: usize = 0x1000_0000;

/// There are no more windows: where their buttons end is then an `u32`.
pub const MAX_WINDOWS: usize = 0x180_0000;

/// What a window paints in its client area.
#[derive(Debug, Clone, Copy, PartialEq, Eq, Structural)]
pub enum WindowKind {
    /// Text that does not change.
    Info,
    /// A terminal, with its slot.
    Terminal { term: usize },
    /// A window of a program, with its number at the window server.
    Client { id: u64 },
}

/// A window.
#[derive(Debug)]
pub struct Window {
    pub x: i32,
    pub y: i32,
    pub w: i32,
    pub h: i32,
    pub title: String,
    pub body: Vec<String>,
    pub accent: Color,
    pub kind: WindowKind,
}

/// A character cell of a terminal; without a colour of its own it has the usual
/// one.
#[derive(Debug, Clone, Copy, PartialEq, Eq, Structural)]
pub struct Cell {
    pub ch: char,
    pub fg: Option<u32>,
}

/// What a terminal shows: its cells row by row, and its cursor.
#[derive(Debug)]
pub struct Grid {
    pub cols: usize,
    pub rows: usize,
    pub cells: Vec<Cell>,
    pub cursor_col: usize,
    pub cursor_row: usize,
}

impl Grid {
    /// The cells fill the grid, and the grid fits into a window.
    pub open spec fn wf(&self) -> bool {
        &&& self.cols <= MAX_COLS
        &&& self.rows <= MAX_ROWS
        &&& self.cells@.len() == self.cols * self.rows
    }
}

/// The pixels of a program's window, row by row.
#[derive(Debug)]
pub struct Pixels {
    pub width: usize,
    pub height: usize,
    pub data: Vec<u32>,
}

impl Pixels {
    pub open spec fn wf(&self) -> bool {
        self.data@.len() == self.width * self.height
    }
}

/// What a window shows in its client area.
#[derive(Debug)]
pub enum Content {
    Body,
    Terminal(Grid),
    Client(Pixels),
    /// A program's window that is gone.
    Nothing,
}

impl Content {
    pub open spec fn wf(&self) -> bool {
        match *self {
            Content::Terminal(g) => g.wf(),
            Content::Client(p) => p.wf(),
            _ => true,
        }
    }
}

/// A rectangle: where it is and how large.
pub type Area = (i32, i32, i32, i32);

/// Whether a point is in a rectangle.
pub open spec fn inside(a: Area, px: i32, py: i32) -> bool {
    a.0 <= px < a.0 + a.2 && a.1 <= py < a.1 + a.3
}

impl Window {
    /// The window is within the coordinates.
    pub open spec fn wf(&self) -> bool {
        &&& 0 <= self.x <= LIMIT
        &&& 0 <= self.y <= LIMIT
        &&& 0 <= self.w <= LIMIT
        &&& TITLE_H <= self.h <= LIMIT
        &&& self.title@.len() <= MAX_TEXT
        &&& self.body@.len() <= MAX_TEXT
        &&& forall|i: int|
            0 <= i < self.body@.len() ==> (#[trigger] self.body@[i])@.len() <= MAX_TEXT
    }

    pub open spec fn close_rect_s(&self) -> Area {
        ((self.x + self.w - CLOSE_SZ - 4) as i32, (self.y + 3) as i32, CLOSE_SZ, CLOSE_SZ)
    }

    pub open spec fn client_area_s(&self) -> Area {
        (self.x, (self.y + TITLE_H) as i32, self.w, (self.h - TITLE_H) as i32)
    }

    /// A window with a text.
    pub fn new(x: i32, y: i32, w: i32, h: i32, title: &str, body: Vec<String>, accent: Color) -> (r:
        Window)
        ensures
            r.x == x && r.y == y && r.w == w && r.h == h,
            r.title@ == title@,
            r.body == body,
            r.accent == accent,
            r.kind == WindowKind::Info,
    {
        Window { x, y, w, h, title: title.to_owned(), body, accent, kind: WindowKind::Info }
    }

    /// A window that holds a terminal of a size.
    pub fn new_terminal(
        x: i32,
        y: i32,
        cols: i32,
        rows: i32,
        title: &str,
        accent: Color,
        term: usize,
    ) -> (r: Window)
        requires
            0 <= cols <= MAX_COLS,
            0 <= rows <= MAX_ROWS,
        ensures
            r.x == x && r.y == y,
            r.w == 8 * cols + 16,
            r.h == 28 + 10 * rows,
            r.title@ == title@,
            r.body@.len() == 0,
            r.accent == accent,
            r.kind == (WindowKind::Terminal { term }),
    {
        Window {
            x,
            y,
            w: cols * TERM_CHAR_W + TERM_PAD_X * 2,
            h: TITLE_H + TERM_PAD_Y + rows * TERM_LINE_H + TERM_PAD_Y,
            title: title.to_owned(),
            body: Vec::new(),
            accent,
            kind: WindowKind::Terminal { term },
        }
    }

    /// A window around a client area of a size.
    pub fn new_client(x: i32, y: i32, cw: i32, ch: i32, title: &str, accent: Color, id: u64) -> (r:
        Window)
        requires
            ch <= LIMIT,
        ensures
            r.x == x && r.y == y && r.w == cw,
            r.h == TITLE_H + ch,
            r.title@ == title@,
            r.body@.len() == 0,
            r.accent == accent,
            r.kind == (WindowKind::Client { id }),
    {
        Window {
            x,
            y,
            w: cw,
            h: TITLE_H + ch,
            title: title.to_owned(),
            body: Vec::new(),
            accent,
            kind: WindowKind::Client { id },
        }
    }

    /// Where the client area is.
    pub fn client_area(&self) -> (r: Area)
        requires
            self.wf(),
        ensures
            r == self.client_area_s(),
    {
        (self.x, self.y + TITLE_H, self.w, self.h - TITLE_H)
    }

    /// Where the close button is.
    pub fn close_rect(&self) -> (r: Area)
        requires
            self.wf(),
        ensures
            r == self.close_rect_s(),
    {
        (self.x + self.w - CLOSE_SZ - 4, self.y + 3, CLOSE_SZ, CLOSE_SZ)
    }

    /// Whether a point is in the title bar.
    pub fn point_in_title(&self, px: i32, py: i32) -> (r: bool)
        requires
            self.wf(),
        ensures
            r == inside((self.x, self.y, self.w, TITLE_H), px, py),
    {
        px >= self.x && px < self.x + self.w && py >= self.y && py < self.y + TITLE_H
    }

    /// Whether a point is in the window.
    pub fn point_in_window(&self, px: i32, py: i32) -> (r: bool)
        requires
            self.wf(),
        ensures
            r == inside((self.x, self.y, self.w, self.h), px, py),
    {
        px >= self.x && px < self.x + self.w && py >= self.y && py < self.y + self.h
    }

    /// Whether a point is in the close button.
    pub fn point_in_close(&self, px: i32, py: i32) -> (r: bool)
        requires
            self.wf(),
        ensures
            r == inside(self.close_rect_s(), px, py),
    {
        let (cx, cy, cw, ch) = self.close_rect();
        px >= cx && px < cx + cw && py >= cy && py < cy + ch
    }
}

/// A rectangle to fill.
pub open spec fn rect(x: int, y: int, w: int, h: int, color: u32) -> DrawView {
    DrawView::Rect { x, y, w, h, color: Color(color) }
}

/// A text to draw.
pub open spec fn label(text: Seq<char>, x: int, y: int, color: u32) -> DrawView {
    DrawView::Text { text, x, y, color: Color(color) }
}

/// The frame of a window: shadow, body, title bar with its accent and title, and
/// the close button, if there is room for it on the screen.
pub open spec fn frame_s(win: Window, active: bool) -> Seq<DrawView> {
    let (x, y, w, h) = (win.x as int, win.y as int, win.w as int, win.h as int);
    let close = win.close_rect_s();
    let body = if win.kind is Terminal {
        C_TERM_BG
    } else {
        C_BODY
    };
    let bar = if active {
        C_TITLE_ACTIVE
    } else {
        C_TITLE_INACTIVE
    };
    let bars = seq![
        rect(x + 4, y + 4, w, h, C_SHADOW),
        rect(x, y, w, h, body),
        rect(x, y, w, 20, bar),
        DrawView::Rect { x, y: y + 20, w, h: 2, color: win.accent },
        label(win.title@, x + 6, y + 6, C_TITLE_TEXT),
    ];
    if close.0 >= 0 {
        bars.push(rect(close.0 as int, close.1 as int, 14, 14, C_CLOSE)).push(
            label("x"@, close.0 + 3, close.1 + 3, C_TITLE_TEXT),
        )
    } else {
        bars
    }
}

/// The lines of a text window.
pub open spec fn body_s(win: Window) -> Seq<DrawView> {
    Seq::new(
        win.body@.len(),
        |i: int| label(win.body@[i]@, win.x + 8, win.y + 28 + 11 * i, C_BODY_TEXT),
    )
}

/// Whether a cell shows something.
pub open spec fn inked(c: Cell) -> bool {
    c.ch != ' ' && c.ch != '\0'
}

/// A cell of a terminal, if it shows something.
pub open spec fn cell_s(win: Window, g: Grid, k: int) -> Seq<DrawView> {
    let c = g.cells@[k];
    let (col, row) = (k % (g.cols as int), k / (g.cols as int));
    if inked(c) {
        seq![
            DrawView::Glyph {
                c: c.ch,
                x: win.x + 8 + 8 * col,
                y: win.y + 24 + 10 * row,
                color: Color(
                    match c.fg {
                        Some(f) => f,
                        None => C_TERM_FG,
                    },
                ),
            },
        ]
    } else {
        Seq::empty()
    }
}

/// The first `k` cells of a terminal.
pub open spec fn cells_s(win: Window, g: Grid, k: int) -> Seq<DrawView>
    decreases k,
{
    if k <= 0 {
        Seq::empty()
    } else {
        cells_s(win, g, k - 1) + cell_s(win, g, k - 1)
    }
}

/// The cursor of a terminal, with the character under it; only the focused
/// terminal has one, and only half of the time.
pub open spec fn cursor_s(win: Window, g: Grid, active: bool, blink_on: bool) -> Seq<DrawView> {
    if active && blink_on && g.cursor_row < g.rows && g.cursor_col < g.cols {
        let x = win.x + 8 + 8 * g.cursor_col;
        let y = win.y + 24 + 10 * g.cursor_row;
        let c = g.cells@[g.cursor_row * g.cols + g.cursor_col];
        let mark = rect(x, y, 8, 8, C_TERM_CURSOR);
        if inked(c) {
            seq![mark, DrawView::Glyph { c: c.ch, x, y, color: Color(C_TERM_BG) }]
        } else {
            seq![mark]
        }
    } else {
        Seq::empty()
    }
}

/// The smaller of two numbers.
pub open spec fn least(a: int, b: int) -> int {
    if a <= b {
        a
    } else {
        b
    }
}

/// The first `k` pixels of a program's window, cut to the client area.
pub open spec fn pixels_s(win: Window, p: Pixels, k: int) -> Seq<DrawView> {
    let dw = least(win.w as int, p.width as int);
    Seq::new(
        k as nat,
        |j: int|
            DrawView::Pixel {
                x: win.x + j % dw,
                y: win.y + 20 + j / dw,
                color: Color(p.data@[j / dw * p.width + j % dw]),
            },
    )
}

/// What the client area shows.
pub open spec fn content_s(win: Window, content: Content, active: bool, blink_on: bool) -> Seq<
    DrawView,
> {
    match content {
        Content::Body => body_s(win),
        Content::Terminal(g) => cells_s(win, g, g.cols * g.rows) + cursor_s(
            win,
            g,
            active,
            blink_on,
        ),
        Content::Client(p) => pixels_s(
            win,
            p,
            least(win.w as int, p.width as int) * least(win.h - 20, p.height as int),
        ),
        Content::Nothing => Seq::empty(),
    }
}

/// A window: its frame, what it shows, and its border.
pub open spec fn window_s(win: Window, content: Content, active: bool, blink_on: bool) -> Seq<
    DrawView,
> {
    (frame_s(win, active) + content_s(win, content, active, blink_on)).push(
        DrawView::Outline {
            x: win.x as int,
            y: win.y as int,
            w: win.w as int,
            h: win.h as int,
            color: Color(C_BORDER),
        },
    )
}

/// The things of a list can all be drawn.
pub open spec fn drawable(list: Seq<Draw>) -> bool {
    forall|i: int| 0 <= i < list.len() ==> in_range((#[trigger] list[i])@)
}

/// Appends something to draw.
pub(crate) fn queue(list: &mut Vec<Draw>, d: Draw)
    requires
        drawable(old(list)@),
        in_range(d@),
    ensures
        drawable(final(list)@),
        views(final(list)@) == views(old(list)@).push(d@),
{
    let ghost before = list@;
    list.push(d);
    assert(views(list@) =~= views(before).push(d@));
}

impl Window {
    /// Draws the frame.
    fn draw_frame(&self, list: &mut Vec<Draw>, active: bool)
        requires
            self.wf(),
            drawable(old(list)@),
        ensures
            drawable(final(list)@),
            views(final(list)@) == views(old(list)@) + frame_s(*self, active),
    {
        let ghost v0 = views(list@);
        let x: usize = self.x as usize;
        let y: usize = self.y as usize;
        let w: usize = self.w as usize;
        let h: usize = self.h as usize;
        let body: u32 = match self.kind {
            WindowKind::Terminal { .. } => C_TERM_BG,
            _ => C_BODY,
        };
        let bar: u32 = if active {
            C_TITLE_ACTIVE
        } else {
            C_TITLE_INACTIVE
        };
        queue(list, Draw::Rect { x: x + 4, y: y + 4, w, h, color: Color(C_SHADOW) });
        queue(list, Draw::Rect { x, y, w, h, color: Color(body) });
        queue(list, Draw::Rect { x, y, w, h: 20, color: Color(bar) });
        queue(list, Draw::Rect { x, y: y + 20, w, h: 2, color: self.accent });
        let title = self.title.as_str().to_owned();
        queue(list, Draw::Text { text: title, x: x + 6, y: y + 6, color: Color(C_TITLE_TEXT) });
        let (cx, cy, _cw, _ch) = self.close_rect();
        if cx >= 0 {
            queue(
                list,
                Draw::Rect { x: cx as usize, y: cy as usize, w: 14, h: 14, color: Color(C_CLOSE) },
            );
            let cross = "x".to_owned();
            proof {
                reveal_strlit("x");
            }
            queue(
                list,
                Draw::Text {
                    text: cross,
                    x: cx as usize + 3,
                    y: cy as usize + 3,
                    color: Color(C_TITLE_TEXT),
                },
            );
        }
        assert(views(list@) =~= v0 + frame_s(*self, active));
    }

    /// Draws the lines of a text window.
    fn draw_body(&self, list: &mut Vec<Draw>)
        requires
            self.wf(),
            drawable(old(list)@),
        ensures
            drawable(final(list)@),
            views(final(list)@) == views(old(list)@) + body_s(*self),
    {
        let ghost v0 = views(list@);
        let mut i: usize = 0;
        assert(v0 + body_s(*self).take(0) =~= v0);
        while i < self.body.len()
            invariant
                self.wf(),
                i <= self.body@.len(),
                drawable(list@),
                views(list@) == v0 + body_s(*self).take(i as int),
            decreases self.body@.len() - i,
        {
            let text = self.body[i].as_str().to_owned();
            assert(self.body@[i as int]@.len() <= MAX_TEXT);
            queue(
                list,
                Draw::Text {
                    text,
                    x: self.x as usize + 8,
                    y: self.y as usize + 28 + 11 * i,
                    color: Color(C_BODY_TEXT),
                },
            );
            i = i + 1;
            assert(views(list@) =~= v0 + body_s(*self).take(i as int));
        }
        assert(body_s(*self).take(i as int) =~= body_s(*self));
    }

    /// Draws a terminal.
    fn draw_terminal(&self, list: &mut Vec<Draw>, g: &Grid, active: bool, blink_on: bool)
        requires
            self.wf(),
            g.wf(),
            drawable(old(list)@),
        ensures
            drawable(final(list)@),
            views(final(list)@) == views(old(list)@) + (cells_s(*self, *g, g.cols * g.rows)
                + cursor_s(*self, *g, active, blink_on)),
    {
        let ghost v0 = views(list@);
        let n: usize = g.cells.len();
        let mut k: usize = 0;
        assert(v0 + cells_s(*self, *g, 0) =~= v0);
        while k < n
            invariant
                self.wf(),
                g.wf(),
                n == g.cells@.len(),
                k <= n,
                drawable(list@),
                views(list@) == v0 + cells_s(*self, *g, k as int),
            decreases n - k,
        {
            let c = g.cells[k];
            proof {
                let cols = g.cols as int;
                assert(cols > 0 && 0 <= k as int / cols < g.rows) by (nonlinear_arith)
                    requires
                        0 <= k < cols * g.rows,
                        cols >= 0,
                        g.rows >= 0,
                ;
            }
            let col: usize = k % g.cols;
            let row: usize = k / g.cols;
            let ghost before = views(list@);
            if c.ch != ' ' && c.ch != '\0' {
                let fg: u32 = match c.fg {
                    Some(f) => f,
                    None => C_TERM_FG,
                };
                queue(
                    list,
                    Draw::Glyph {
                        c: c.ch,
                        x: self.x as usize + 8 + 8 * col,
                        y: self.y as usize + 24 + 10 * row,
                        color: Color(fg),
                    },
                );
            }
            assert(views(list@) =~= before + cell_s(*self, *g, k as int));
            assert(views(list@) =~= v0 + cells_s(*self, *g, k + 1));
            k = k + 1;
        }
        let ghost mid = views(list@);
        if active && blink_on && g.cursor_row < g.rows && g.cursor_col < g.cols {
            let x: usize = self.x as usize + 8 + 8 * g.cursor_col;
            let y: usize = self.y as usize + 24 + 10 * g.cursor_row;
            proof {
                assert(0 <= g.cursor_row * g.cols && g.cursor_row * g.cols + g.cursor_col < g.cols
                    * g.rows) by (nonlinear_arith)
                    requires
                        0 <= g.cursor_row < g.rows,
                        0 <= g.cursor_col < g.cols,
                ;
            }
            let c = g.cells[g.cursor_row * g.cols + g.cursor_col];
            queue(list, Draw::Rect { x, y, w: 8, h: 8, color: Color(C_TERM_CURSOR) });
            if c.ch != ' ' && c.ch != '\0' {
                queue(list, Draw::Glyph { c: c.ch, x, y, color: Color(C_TERM_BG) });
            }
        }
        assert(views(list@) =~= mid + cursor_s(*self, *g, active, blink_on));
        assert(views(list@) =~= v0 + (cells_s(*self, *g, g.cols * g.rows) + cursor_s(
            *self,
            *g,
            active,
            blink_on,
        )));
    }

    /// Draws the pixels of a program's window.
    fn draw_client(&self, list: &mut Vec<Draw>, p: &Pixels)
        requires
            self.wf(),
            p.wf(),
            drawable(old(list)@),
        ensures
            drawable(final(list)@),
            views(final(list)@) == views(old(list)@) + pixels_s(
                *self,
                *p,
                least(self.w as int, p.width as int) * least(self.h - 20, p.height as int),
            ),
    {
        let ghost v0 = views(list@);
        let dw: usize = if self.w as usize <= p.width {
            self.w as usize
        } else {
            p.width
        };
        let ch: usize = (self.h - TITLE_H) as usize;
        let dh: usize = if ch <= p.height {
            ch
        } else {
            p.height
        };
        let total: usize = p.data.len();
        proof {
            assert(dw * dh <= p.width * p.height) by (nonlinear_arith)
                requires
                    0 <= dw <= p.width,
                    0 <= dh <= p.height,
            ;
        }
        let n: usize = dw * dh;
        let mut k: usize = 0;
        assert(v0 + pixels_s(*self, *p, 0) =~= v0);
        while k < n
            invariant
                self.wf(),
                p.wf(),
                dw == least(self.w as int, p.width as int),
                dh == least(self.h - 20, p.height as int),
                dw <= LIMIT,
                dh <= LIMIT,
                n == dw * dh,
                total == p.width * p.height,
                k <= n,
                drawable(list@),
                views(list@) == v0 + pixels_s(*self, *p, k as int),
            decreases n - k,
        {
            proof {
                assert(dw > 0) by (nonlinear_arith)
                    requires
                        k < dw * dh,
                        dw >= 0,
                        k >= 0,
                ;
                assert(k / dw < dh && k / dw * p.width + k % dw < p.width * p.height && k / dw
                    * p.width <= p.width * p.height) by (nonlinear_arith)
                    requires
                        0 <= k < dw * dh,
                        0 < dw <= p.width,
                        dh <= p.height,
                ;
            }
            let row: usize = k / dw;
            let col: usize = k % dw;
            let c: u32 = p.data[row * p.width + col];
            queue(
                list,
                Draw::Pixel {
                    x: self.x as usize + col,
                    y: self.y as usize + 20 + row,
                    color: Color(c),
                },
            );
            k = k + 1;
            assert(views(list@) =~= v0 + pixels_s(*self, *p, k as int));
        }
    }

    /// Draws the window. The focused one has another title bar, and its terminal
    /// a cursor that blinks.
    pub fn draw(&self, list: &mut Vec<Draw>, content: &Content, active: bool, blink_on: bool)
        requires
            self.wf(),
            content.wf(),
            drawable(old(list)@),
        ensures
            drawable(final(list)@),
            views(final(list)@) == views(old(list)@) + window_s(
                *self,
                *content,
                active,
                blink_on,
            ),
    {
        let ghost v0 = views(list@);
        self.draw_frame(list, active);
        match content {
            Content::Body => self.draw_body(list),
            Content::Terminal(g) => self.draw_terminal(list, g, active, blink_on),
            Content::Client(p) => self.draw_client(list, p),
            Content::Nothing => {},
        }
        assert(views(list@) =~= v0 + (frame_s(*self, active) + content_s(
            *self,
            *content,
            active,
            blink_on,
        )));
        queue(
            list,
            Draw::Outline {
                x: self.x as usize,
                y: self.y as usize,
                w: self.w as usize,
                h: self.h as usize,
                color: Color(C_BORDER),
            },
        );
        assert(views(list@) =~= v0 + window_s(*self, *content, active, blink_on));
    }
}

/// The close button is part of the title bar, and the title bar of the window, if
/// the window is wide enough for the button.
pub proof fn law_button_is_in_its_window(win: Window, px: i32, py: i32)
    requires
        win.wf(),
        win.w >= CLOSE_SZ + 4,
        inside(win.close_rect_s(), px, py),
    ensures
        inside((win.x, win.y, win.w, TITLE_H), px, py),
        inside((win.x, win.y, win.w, win.h), px, py),
{
}

} // verus!
