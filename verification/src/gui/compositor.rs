//! The compositor's decisions: which window a click means, where windows go, who
//! gets the keyboard and the mouse, and what is to be painted anew.

use super::desktop::{
    client_window_count, clients_s, new_term_s, point_in_new_term, terminal_window_count,
    terminals_s,
};
use super::window::{
    inside, Window, WindowKind, LIMIT, MAX_COLS, MAX_ROWS, MAX_TEXT, MAX_WINDOWS, TITLE_H,
};
use crate::driver::console::{flush, ConsoleInput, ConsoleView};
use crate::framebuffer::Color;
use vstd::prelude::*;

verus! {

/// What a program is told about its window.
#[derive(Debug, Clone, Copy, PartialEq, Eq, Structural)]
pub enum ClientEvent {
    Focus,
    Blur,
    Close,
    Key(char),
    MouseMove { x: i32, y: i32 },
    MouseDown { x: i32, y: i32 },
    MouseUp { x: i32, y: i32 },
}

/// What is to be done outside.
#[derive(Debug, Clone, Copy, PartialEq, Eq, Structural)]
pub enum Effect {
    /// Tell the window server where a client area is.
    Place { id: u64, x: i32, y: i32 },
    /// Put an event into a window's queue.
    Tell { id: u64, event: ClientEvent },
    /// Destroy a window of the window server.
    Destroy { id: u64 },
    /// Free a terminal.
    FreeTerminal { term: usize },
    /// Open a terminal, and then call [`Scene::open_terminal`].
    NewTerminal,
    /// Give the keyboard to a terminal, or to none.
    FocusTerminal { on: Option<usize> },
}

/// The windows from back to front and what the pointer is doing with them.
pub struct Scene {
    pub windows: Vec<Window>,
    pub focus: usize,
    pub dragging: Option<(i32, i32)>,
    pub prev_left: bool,
    pub focused_client: Option<u64>,
    pub prev_left_client: bool,
}

/// The windows from back to front and what the pointer is doing with them.
#[verifier::ext_equal]
pub struct SceneView {
    pub windows: Seq<Window>,
    pub focus: int,
    pub dragging: Option<(i32, i32)>,
    pub prev_left: bool,
    pub focused_client: Option<u64>,
    pub prev_left_client: bool,
}

/// A number within bounds; where they leave nothing, the lower one.
pub open spec fn clamp_s(v: int, lo: int, hi: int) -> int {
    if v < lo || hi < lo {
        lo
    } else if v > hi {
        hi
    } else {
        v
    }
}

/// A number within bounds.
fn clamp(v: i32, lo: i32, hi: i32) -> (r: i32)
    ensures
        r == clamp_s(v as int, lo as int, hi as int),
{
    if v < lo || hi < lo {
        lo
    } else if v > hi {
        hi
    } else {
        v
    }
}

/// The topmost of the first `n` windows at a point.
pub open spec fn hit_s(wins: Seq<Window>, n: int, px: i32, py: i32) -> Option<int>
    decreases n,
{
    if n <= 0 {
        None
    } else {
        let w = wins[n - 1];
        if inside((w.x, w.y, w.w, w.h), px, py) {
            Some(n - 1)
        } else {
            hit_s(wins, n - 1, px, py)
        }
    }
}

/// The scene with a window more, which is on top and focused.
pub open spec fn added_s(v: SceneView, win: Window) -> SceneView {
    SceneView { windows: v.windows.push(win), focus: v.windows.len() as int, ..v }
}

/// The scene without a window; the topmost one is focused.
pub open spec fn removed_s(v: SceneView, i: int) -> SceneView {
    let windows = v.windows.remove(i);
    SceneView {
        windows,
        focus: if windows.len() > 0 {
            windows.len() - 1
        } else {
            0
        },
        dragging: if windows.len() > 0 {
            v.dragging
        } else {
            None
        },
        ..v
    }
}

/// The scene once a program's window has lost the keyboard for good.
pub open spec fn forgotten_s(v: SceneView, id: u64) -> SceneView {
    SceneView {
        focused_client: if v.focused_client == Some(id) {
            None
        } else {
            v.focused_client
        },
        ..v
    }
}

/// The scene with a window raised to the top; it follows the pointer if its title
/// bar was hit.
pub open spec fn raised_s(v: SceneView, i: int, px: i32, py: i32) -> SceneView {
    let win = v.windows[i];
    SceneView {
        windows: v.windows.remove(i).push(win),
        focus: v.windows.len() - 1,
        dragging: if inside((win.x, win.y, win.w, TITLE_H), px, py) {
            Some(((px - win.x) as i32, (py - win.y) as i32))
        } else {
            v.dragging
        },
        ..v
    }
}

/// What closing a window takes besides removing it.
pub open spec fn close_effects(w: Window) -> Seq<Effect> {
    match w.kind {
        WindowKind::Terminal { term } => seq![Effect::FreeTerminal { term }],
        WindowKind::Client { id } => seq![
            Effect::Tell { id, event: ClientEvent::Close },
            Effect::Destroy { id },
        ],
        WindowKind::Info => Seq::empty(),
    }
}

/// A window moved to where the pointer takes it, within the screen.
pub open spec fn dragged_s(w: Window, screen_w: int, screen_h: int, x: int, y: int) -> Window {
    Window {
        x: clamp_s(x, 0, screen_w - w.w) as i32,
        y: clamp_s(y, 0, screen_h - TITLE_H) as i32,
        ..w
    }
}

/// What a change of the mouse does to the scene, what is to be done outside, and
/// whether the scene is to be painted anew.
pub open spec fn mouse_s(
    v0: SceneView,
    screen_w: int,
    screen_h: i32,
    px: i32,
    py: i32,
    left: bool,
) -> (SceneView, Seq<Effect>, bool) {
    let pressed = left && !v0.prev_left;
    let v = SceneView { prev_left: left, ..v0 };
    match v.dragging {
        Some((ox, oy)) => if !left {
            (SceneView { dragging: None, ..v }, Seq::empty(), false)
        } else {
            let i = v.windows.len() - 1;
            let w = dragged_s(v.windows[i], screen_w, screen_h as int, px - ox, py - oy);
            (
                SceneView { windows: v.windows.update(i, w), ..v },
                match w.kind {
                    WindowKind::Client { id } => seq![
                        Effect::Place { id, x: w.x, y: (w.y + TITLE_H) as i32 },
                    ],
                    _ => Seq::empty(),
                },
                true,
            )
        },
        None => if !pressed {
            (v, Seq::empty(), false)
        } else if inside(new_term_s(screen_h), px, py) {
            (v, seq![Effect::NewTerminal], false)
        } else {
            match hit_s(v.windows, v.windows.len() as int, px, py) {
                None => (v, Seq::empty(), false),
                Some(i) => {
                    let w = v.windows[i];
                    if inside(w.close_rect_s(), px, py) {
                        let v1 = match w.kind {
                            WindowKind::Client { id } => forgotten_s(v, id),
                            _ => v,
                        };
                        (removed_s(v1, i), close_effects(w), true)
                    } else {
                        (raised_s(v, i, px, py), Seq::empty(), true)
                    }
                },
            }
        },
    }
}

/// The topmost window, if it is the focused one.
pub open spec fn top_s(v: SceneView) -> Option<Window> {
    if v.windows.len() > 0 && v.focus == v.windows.len() - 1 {
        Some(v.windows[v.focus])
    } else {
        None
    }
}

/// The terminal that gets the keyboard.
pub open spec fn focused_terminal_s(v: SceneView) -> Option<usize> {
    match top_s(v) {
        Some(w) => match w.kind {
            WindowKind::Terminal { term } => Some(term),
            _ => None,
        },
        None => None,
    }
}

/// The program's window that gets the keyboard and the mouse.
pub open spec fn top_client_s(v: SceneView) -> Option<u64> {
    match top_s(v) {
        Some(w) => match w.kind {
            WindowKind::Client { id } => Some(id),
            _ => None,
        },
        None => None,
    }
}

/// What is told when another program's window gets the keyboard, or none.
pub open spec fn focus_effects(old: Option<u64>, new: Option<u64>) -> Seq<Effect> {
    let blur = match old {
        Some(id) if old != new => seq![Effect::Tell { id, event: ClientEvent::Blur }],
        _ => Seq::empty(),
    };
    match new {
        Some(id) if old != new => blur.push(Effect::Tell { id, event: ClientEvent::Focus }),
        _ => blur,
    }
}

/// What a program is told of the mouse, in coordinates of its client area.
pub open spec fn routed_s(v: SceneView, moved: bool, px: i32, py: i32, left: bool) -> Seq<Effect> {
    match top_client_s(v) {
        None => Seq::empty(),
        Some(id) => {
            let w = v.windows[v.focus];
            let x = (px - w.x) as i32;
            let y = (py - (w.y + TITLE_H)) as i32;
            if moved && inside(w.client_area_s(), px, py) {
                let at = seq![Effect::Tell { id, event: ClientEvent::MouseMove { x, y } }];
                if left && !v.prev_left_client {
                    at.push(Effect::Tell { id, event: ClientEvent::MouseDown { x, y } })
                } else if !left && v.prev_left_client {
                    at.push(Effect::Tell { id, event: ClientEvent::MouseUp { x, y } })
                } else {
                    at
                }
            } else {
                Seq::empty()
            }
        },
    }
}

impl Scene {
    pub open spec fn view(&self) -> SceneView {
        SceneView {
            windows: self.windows@,
            focus: self.focus as int,
            dragging: self.dragging,
            prev_left: self.prev_left,
            focused_client: self.focused_client,
            prev_left_client: self.prev_left_client,
        }
    }

    /// The windows are in order, and only a window that is there is dragged.
    pub open spec fn wf(&self) -> bool {
        &&& self.windows@.len() <= MAX_WINDOWS
        &&& forall|i: int| 0 <= i < self.windows@.len() ==> (#[trigger] self.windows@[i]).wf()
        &&& self.dragging is Some ==> self.windows@.len() > 0
        &&& self.dragging matches Some((ox, oy)) ==> 0 <= ox <= LIMIT && 0 <= oy <= LIMIT
    }

    /// A scene with these windows, the last of which is focused.
    pub fn new(windows: Vec<Window>) -> (r: Scene)
        requires
            0 < windows@.len() <= MAX_WINDOWS,
            forall|i: int| 0 <= i < windows@.len() ==> (#[trigger] windows@[i]).wf(),
        ensures
            r.wf(),
            r@ == (SceneView {
                windows: windows@,
                focus: windows@.len() - 1,
                dragging: None,
                prev_left: false,
                focused_client: None,
                prev_left_client: false,
            }),
    {
        let focus: usize = windows.len() - 1;
        Scene {
            windows,
            focus,
            dragging: None,
            prev_left: false,
            focused_client: None,
            prev_left_client: false,
        }
    }

    /// Adds the window of a program; the windows of programs are staggered.
    pub fn add_client(
        &mut self,
        screen_w: i32,
        screen_h: i32,
        id: u64,
        cw: i32,
        ch: i32,
        title: &str,
    ) -> (r: Vec<Effect>)
        requires
            old(self).wf(),
            old(self)@.windows.len() < MAX_WINDOWS,
            0 <= screen_w <= LIMIT,
            0 <= screen_h <= LIMIT,
            0 <= cw <= LIMIT,
            0 <= ch <= LIMIT - TITLE_H,
            title@.len() <= MAX_TEXT,
        ensures
            final(self).wf(),
            ({
                let n = clients_s(old(self)@.windows, old(self)@.windows.len() as int) as int;
                let win = final(self)@.windows.last();
                &&& final(self)@ == added_s(old(self)@, win)
                &&& win.x == clamp_s(
                    360 + 26 * n,
                    0,
                    screen_w - (if cw < 1 {
                        1
                    } else {
                        cw as int
                    }),
                )
                &&& win.y == clamp_s(180 + 26 * n, 0, screen_h - TITLE_H)
                &&& win.w == cw && win.h == TITLE_H + ch
                &&& win.title@ == title@
                &&& win.accent == Color(0x2A7AB0)
                &&& win.kind == (WindowKind::Client { id })
                &&& r@ == seq![
                    Effect::Place { id, x: win.x, y: (win.y + TITLE_H) as i32 },
                    Effect::Tell { id, event: ClientEvent::Focus },
                ]
            }),
    {
        let n: i32 = client_window_count(&self.windows) as i32;
        let least: i32 = if cw < 1 {
            1
        } else {
            cw
        };
        let x: i32 = clamp(360 + 26 * n, 0, screen_w - least);
        let y: i32 = clamp(180 + 26 * n, 0, screen_h - TITLE_H);
        let win = Window::new_client(x, y, cw, ch, title, Color(0x2A7AB0), id);
        self.push(win);
        let mut r: Vec<Effect> = Vec::new();
        r.push(Effect::Place { id, x, y: y + TITLE_H });
        r.push(Effect::Tell { id, event: ClientEvent::Focus });
        r
    }

    /// Adds a terminal that was opened; terminals are staggered.
    pub fn open_terminal(
        &mut self,
        screen_w: i32,
        screen_h: i32,
        cols: i32,
        rows: i32,
        term: usize,
    )
        requires
            old(self).wf(),
            old(self)@.windows.len() < MAX_WINDOWS,
            0 <= screen_w <= LIMIT,
            0 <= screen_h <= LIMIT,
            0 <= cols <= MAX_COLS,
            0 <= rows <= MAX_ROWS,
        ensures
            final(self).wf(),
            ({
                let n = terminals_s(old(self)@.windows, old(self)@.windows.len() as int) as int;
                let win = final(self)@.windows.last();
                &&& final(self)@ == added_s(old(self)@, win)
                &&& win.x == clamp_s(300 + 28 * n, 0, screen_w - 200)
                &&& win.y == clamp_s(150 + 28 * n, 0, screen_h - 120)
                &&& win.w == 8 * cols + 16 && win.h == 28 + 10 * rows
                &&& win.title@ == "Terminal - pickleos shell"@
                &&& win.accent == Color(0xB0742A)
                &&& win.kind == (WindowKind::Terminal { term })
            }),
    {
        let n: i32 = terminal_window_count(&self.windows) as i32;
        let x: i32 = clamp(300 + 28 * n, 0, screen_w - 200);
        let y: i32 = clamp(150 + 28 * n, 0, screen_h - 120);
        proof {
            reveal_strlit("Terminal - pickleos shell");
        }
        let win = Window::new_terminal(
            x,
            y,
            cols,
            rows,
            "Terminal - pickleos shell",
            Color(0xB0742A),
            term,
        );
        self.push(win);
    }

    /// Adds a window on top.
    fn push(&mut self, win: Window)
        requires
            old(self).wf(),
            old(self)@.windows.len() < MAX_WINDOWS,
            win.wf(),
        ensures
            final(self).wf(),
            final(self)@ == added_s(old(self)@, win),
    {
        self.focus = self.windows.len();
        self.windows.push(win);
    }

    /// Removes a window.
    fn drop_window(&mut self, i: usize)
        requires
            old(self).wf(),
            i < old(self)@.windows.len(),
        ensures
            final(self).wf(),
            final(self)@ == removed_s(old(self)@, i as int),
    {
        let _ = self.windows.remove(i);
        let n: usize = self.windows.len();
        self.focus = if n > 0 {
            n - 1
        } else {
            0
        };
        if n == 0 {
            self.dragging = None;
        }
        proof {
            assert forall|j: int| 0 <= j < self.windows@.len() implies (
            #[trigger] self.windows@[j]).wf() by {
                if j < i {
                    assert(old(self).windows@[j].wf());
                } else {
                    assert(old(self).windows@[j + 1].wf());
                }
            }
        }
    }

    /// Where the window of a program is among the windows.
    pub open spec fn client_index(wins: Seq<Window>, id: u64, n: int) -> Option<int>
        decreases wins.len() - n,
    {
        if n < 0 || n >= wins.len() {
            None
        } else if wins[n].kind == (WindowKind::Client { id }) {
            Some(n)
        } else {
            Self::client_index(wins, id, n + 1)
        }
    }

    /// Removes the window of a program that is gone. Returns whether there was
    /// one.
    pub fn remove_client(&mut self, id: u64) -> (r: bool)
        requires
            old(self).wf(),
        ensures
            final(self).wf(),
            match Self::client_index(old(self)@.windows, id, 0) {
                Some(i) => r && final(self)@ == removed_s(forgotten_s(old(self)@, id), i),
                None => !r && final(self)@ == old(self)@,
            },
    {
        let mut i: usize = 0;
        while i < self.windows.len()
            invariant
                self.wf(),
                *self == *old(self),
                i <= self.windows@.len(),
                Self::client_index(self.windows@, id, 0) == Self::client_index(
                    self.windows@,
                    id,
                    i as int,
                ),
            decreases self.windows@.len() - i,
        {
            let found = match self.windows[i].kind {
                WindowKind::Client { id: other } => other == id,
                _ => false,
            };
            if found {
                self.forget(id);
                self.drop_window(i);
                return true;
            }
            i = i + 1;
        }
        false
    }

    /// A program's window has lost the keyboard for good.
    fn forget(&mut self, id: u64)
        ensures
            final(self)@ == forgotten_s(old(self)@, id),
            old(self).wf() ==> final(self).wf(),
    {
        if let Some(c) = self.focused_client {
            if c == id {
                self.focused_client = None;
            }
        }
    }

    /// The topmost window at a point.
    fn hit(&self, px: i32, py: i32) -> (r: Option<usize>)
        requires
            self.wf(),
        ensures
            match r {
                Some(i) => i < self@.windows.len() && hit_s(
                    self@.windows,
                    self@.windows.len() as int,
                    px,
                    py,
                ) == Some(i as int),
                None => hit_s(self@.windows, self@.windows.len() as int, px, py) is None,
            },
    {
        let mut i: usize = self.windows.len();
        while i > 0
            invariant
                self.wf(),
                i <= self.windows@.len(),
                hit_s(self@.windows, self@.windows.len() as int, px, py) == hit_s(
                    self@.windows,
                    i as int,
                    px,
                    py,
                ),
            decreases i,
        {
            assert(self.windows@[i - 1].wf());
            if self.windows[i - 1].point_in_window(px, py) {
                return Some(i - 1);
            }
            i = i - 1;
        }
        None
    }

    /// Handles a change of the mouse.
    pub fn mouse(&mut self, screen_w: i32, screen_h: i32, px: i32, py: i32, left: bool) -> (r: (
        Vec<Effect>,
        bool,
    ))
        requires
            old(self).wf(),
            0 <= screen_w <= LIMIT,
            0 <= screen_h <= LIMIT,
            0 <= px <= LIMIT,
            0 <= py <= LIMIT,
        ensures
            final(self).wf(),
            (final(self)@, r.0@, r.1) == mouse_s(
                old(self)@,
                screen_w as int,
                screen_h,
                px,
                py,
                left,
            ),
    {
        let pressed = left && !self.prev_left;
        self.prev_left = left;
        let mut effects: Vec<Effect> = Vec::new();
        assert(effects@ =~= Seq::<Effect>::empty());
        match self.dragging {
            Some((ox, oy)) => {
                if !left {
                    self.dragging = None;
                    return (effects, false);
                }
                let i: usize = self.windows.len() - 1;
                assert(self.windows@[i as int].wf());
                let ghost w0 = self.windows@[i as int];
                let mut w = self.windows.remove(i);
                w.x = clamp(px - ox, 0, screen_w - w.w);
                w.y = clamp(py - oy, 0, screen_h - TITLE_H);
                if let WindowKind::Client { id } = w.kind {
                    effects.push(Effect::Place { id, x: w.x, y: w.y + TITLE_H });
                    assert(effects@ =~= seq![
                        Effect::Place { id, x: w.x, y: (w.y + TITLE_H) as i32 },
                    ]);
                }
                let ghost w1 = w;
                self.windows.push(w);
                proof {
                    assert(w1 == dragged_s(
                        w0,
                        screen_w as int,
                        screen_h as int,
                        px - ox,
                        py - oy,
                    ));
                    assert(self.windows@ =~= old(self).windows@.update(i as int, w1));
                    assert forall|j: int| 0 <= j < self.windows@.len() implies (
                    #[trigger] self.windows@[j]).wf() by {
                        if j < i {
                            assert(old(self).windows@[j].wf());
                        }
                    }
                }
                (effects, true)
            },
            None => {
                if !pressed {
                    return (effects, false);
                }
                if point_in_new_term(px, py, screen_h) {
                    effects.push(Effect::NewTerminal);
                    assert(effects@ =~= seq![Effect::NewTerminal]);
                    return (effects, false);
                }
                match self.hit(px, py) {
                    None => (effects, false),
                    Some(i) => {
                        assert(self.windows@[i as int].wf());
                        let ghost w0 = self.windows@[i as int];
                        if self.windows[i].point_in_close(px, py) {
                            match self.windows[i].kind {
                                WindowKind::Terminal { term } => {
                                    effects.push(Effect::FreeTerminal { term });
                                },
                                WindowKind::Client { id } => {
                                    effects.push(
                                        Effect::Tell { id, event: ClientEvent::Close },
                                    );
                                    effects.push(Effect::Destroy { id });
                                    self.forget(id);
                                },
                                WindowKind::Info => {},
                            }
                            assert(effects@ =~= close_effects(w0));
                            self.drop_window(i);
                        } else {
                            self.raise(i, px, py);
                        }
                        (effects, true)
                    },
                }
            },
        }
    }

    /// Raises a window to the top.
    fn raise(&mut self, i: usize, px: i32, py: i32)
        requires
            old(self).wf(),
            i < old(self)@.windows.len(),
            0 <= px <= LIMIT,
            0 <= py <= LIMIT,
        ensures
            final(self).wf(),
            final(self)@ == raised_s(old(self)@, i as int, px, py),
    {
        let ghost before = self.windows@;
        assert(before[i as int].wf());
        let win = self.windows.remove(i);
        if win.point_in_title(px, py) {
            self.dragging = Some((px - win.x, py - win.y));
        }
        self.windows.push(win);
        self.focus = self.windows.len() - 1;
        proof {
            assert forall|j: int| 0 <= j < self.windows@.len() implies (
            #[trigger] self.windows@[j]).wf() by {
                if j < i {
                    assert(before[j].wf());
                } else if j < before.len() - 1 {
                    assert(before[j + 1].wf());
                }
            }
        }
    }

    /// The terminal that gets the keyboard.
    pub fn focused_terminal(&self) -> (r: Option<usize>)
        ensures
            r == focused_terminal_s(self@),
    {
        let n: usize = self.windows.len();
        if n > 0 && self.focus == n - 1 {
            match self.windows[self.focus].kind {
                WindowKind::Terminal { term } => Some(term),
                _ => None,
            }
        } else {
            None
        }
    }

    /// The program's window that gets the keyboard and the mouse.
    pub fn top_client(&self) -> (r: Option<u64>)
        ensures
            r == top_client_s(self@),
    {
        let n: usize = self.windows.len();
        if n > 0 && self.focus == n - 1 {
            match self.windows[self.focus].kind {
                WindowKind::Client { id } => Some(id),
                _ => None,
            }
        } else {
            None
        }
    }

    /// Passes the keyboard on where another program's window came to the top; it does
    /// not get the keys that were typed before.
    pub fn sync_client_focus(&mut self, console: &mut ConsoleInput) -> (r: Vec<Effect>)
        requires
            old(self).wf(),
            old(console).wf(),
        ensures
            final(self).wf(),
            final(console).wf(),
            final(console)@ == (ConsoleView {
                queue: if top_client_s(old(self)@) is Some && top_client_s(old(self)@) != old(
                    self,
                )@.focused_client {
                    Seq::empty()
                } else {
                    old(console)@.queue
                },
                ..old(console)@
            }),
            r@ == focus_effects(old(self)@.focused_client, top_client_s(old(self)@)),
            final(self)@ == (SceneView {
                focused_client: top_client_s(old(self)@),
                ..old(self)@
            }),
    {
        let top = self.top_client();
        let mut r: Vec<Effect> = Vec::new();
        let same = match (top, self.focused_client) {
            (Some(a), Some(b)) => a == b,
            (None, None) => true,
            _ => false,
        };
        if !same {
            if let Some(id) = self.focused_client {
                r.push(Effect::Tell { id, event: ClientEvent::Blur });
            }
            if let Some(id) = top {
                r.push(Effect::Tell { id, event: ClientEvent::Focus });
                flush(console);
            }
            self.focused_client = top;
        }
        assert(r@ =~= focus_effects(old(self)@.focused_client, top_client_s(old(self)@)));
        r
    }

    /// Passes the mouse on to the program whose window is on top.
    pub fn route_mouse(&mut self, moved: bool, px: i32, py: i32, left: bool) -> (r: Vec<Effect>)
        requires
            old(self).wf(),
            0 <= px <= LIMIT,
            0 <= py <= LIMIT,
        ensures
            final(self).wf(),
            r@ == routed_s(old(self)@, moved, px, py, left),
            final(self)@ == (SceneView {
                prev_left_client: if top_client_s(old(self)@) is Some {
                    left
                } else {
                    old(self)@.prev_left_client
                },
                ..old(self)@
            }),
    {
        let mut r: Vec<Effect> = Vec::new();
        if let Some(id) = self.top_client() {
            let i: usize = self.focus;
            assert(self.windows@[i as int].wf());
            let x: i32 = px - self.windows[i].x;
            let y: i32 = py - (self.windows[i].y + TITLE_H);
            let in_client = x >= 0 && y >= 0 && x < self.windows[i].w && y < self.windows[i].h
                - TITLE_H;
            if moved && in_client {
                r.push(Effect::Tell { id, event: ClientEvent::MouseMove { x, y } });
                if left && !self.prev_left_client {
                    r.push(Effect::Tell { id, event: ClientEvent::MouseDown { x, y } });
                } else if !left && self.prev_left_client {
                    r.push(Effect::Tell { id, event: ClientEvent::MouseUp { x, y } });
                }
            }
            self.prev_left_client = left;
        }
        assert(r@ =~= routed_s(old(self)@, moved, px, py, left));
        r
    }
}

/// What is painted anew in a frame.
#[derive(Debug, Clone, Copy, PartialEq, Eq, Structural)]
pub enum Repaint {
    /// Everything.
    All,
    /// The focused window, in its place.
    TopWindow,
    /// Only the cursor.
    Cursor,
    /// Nothing.
    Nothing,
}

/// What is to be painted anew: everything if windows moved or a terminal in the
/// back changed, only the focused terminal if nothing else changed or its cursor
/// blinks, only the mouse cursor if nothing but the mouse moved.
pub open spec fn repaint_s(
    dirty: bool,
    changed: nat,
    focused_changed: bool,
    terminal_on_top: bool,
    blinked: bool,
    moved: bool,
) -> Repaint {
    if dirty {
        Repaint::All
    } else if changed == 1 && focused_changed && terminal_on_top {
        Repaint::TopWindow
    } else if changed > 0 {
        Repaint::All
    } else if blinked && terminal_on_top {
        Repaint::TopWindow
    } else if moved {
        Repaint::Cursor
    } else {
        Repaint::Nothing
    }
}

/// Decides what is to be painted anew.
pub fn repaint(
    dirty: bool,
    changed: usize,
    focused_changed: bool,
    terminal_on_top: bool,
    blinked: bool,
    moved: bool,
) -> (r: Repaint)
    ensures
        r == repaint_s(
            dirty,
            changed as nat,
            focused_changed,
            terminal_on_top,
            blinked,
            moved,
        ),
{
    if dirty {
        Repaint::All
    } else if changed == 1 && focused_changed && terminal_on_top {
        Repaint::TopWindow
    } else if changed > 0 {
        Repaint::All
    } else if blinked && terminal_on_top {
        Repaint::TopWindow
    } else if moved {
        Repaint::Cursor
    } else {
        Repaint::Nothing
    }
}

/// Whether the text cursor shows in a frame: it blinks every nine frames.
pub fn blink(frame: u64) -> (r: bool)
    ensures
        r == (frame / 9 % 2 == 0),
{
    frame / 9 % 2 == 0
}

/// How many of the first `n` terminals changed.
pub open spec fn changes_s(old: Seq<u64>, new: Seq<u64>, n: int) -> nat
    decreases n,
{
    if n <= 0 {
        0
    } else {
        changes_s(old, new, n - 1) + (if old[n - 1] != new[n - 1] {
            1nat
        } else {
            0nat
        })
    }
}

/// Notes which terminals changed: how many, and whether the focused one did.
pub fn note_changes(last: &mut Vec<u64>, now: &Vec<u64>, focused: Option<usize>) -> (r: (usize, bool))
    requires
        old(last)@.len() == now@.len(),
    ensures
        final(last)@ == now@,
        r.0 == changes_s(old(last)@, now@, now@.len() as int),
        r.1 == (focused matches Some(t) && t < now@.len() && old(last)@[t as int]
            != now@[t as int]),
{
    let mut n: usize = 0;
    let mut hit: bool = false;
    let mut i: usize = 0;
    while i < now.len()
        invariant
            i <= now@.len(),
            n <= i,
            last@.len() == now@.len() == old(last)@.len(),
            forall|j: int| 0 <= j < i ==> #[trigger] last@[j] == now@[j],
            forall|j: int| i <= j < now@.len() ==> #[trigger] last@[j] == old(last)@[j],
            n == changes_s(old(last)@, now@, i as int),
            hit == (focused matches Some(t) && t < i && old(last)@[t as int] != now@[t as int]),
        decreases now@.len() - i,
    {
        if last[i] != now[i] {
            n = n + 1;
            if let Some(t) = focused {
                if t == i {
                    hit = true;
                }
            }
        }
        last.set(i, now[i]);
        i = i + 1;
    }
    assert(last@ =~= now@);
    (n, hit)
}

/// Clicking into a window that is not on its close button brings it to the top,
/// and no window is lost.
pub proof fn law_click_raises(v: SceneView, screen_w: int, screen_h: i32, px: i32, py: i32, i: int)
    requires
        v.dragging is None,
        !v.prev_left,
        !inside(new_term_s(screen_h), px, py),
        hit_s(v.windows, v.windows.len() as int, px, py) == Some(i),
        0 <= i < v.windows.len(),
        !inside(v.windows[i].close_rect_s(), px, py),
    ensures
        ({
            let w = mouse_s(v, screen_w, screen_h, px, py, true).0;
            &&& top_s(w) == Some(v.windows[i])
            &&& w.windows.to_multiset() == v.windows.to_multiset()
        }),
{
    let w = mouse_s(v, screen_w, screen_h, px, py, true).0;
    let rest = v.windows.remove(i);
    vstd::seq_lib::to_multiset_remove(v.windows, i);
    broadcast use vstd::seq_lib::group_to_multiset_ensures;
    assert(w.windows == rest.push(v.windows[i]));
    assert(v.windows.contains(v.windows[i]));
    assert(rest.to_multiset().insert(v.windows[i]) =~= v.windows.to_multiset());
}

/// However the pointer moves, a window that is dragged stays with its title bar on
/// the screen, if it is not wider than the screen.
pub proof fn law_dragged_window_stays_on_screen(w: Window, screen_w: int, screen_h: int, x: int, y: int)
    requires
        0 <= w.w <= screen_w <= LIMIT,
        TITLE_H <= screen_h <= LIMIT,
    ensures
        ({
            let d = dragged_s(w, screen_w, screen_h, x, y);
            0 <= d.x && d.x + d.w <= screen_w && 0 <= d.y && d.y + TITLE_H <= screen_h
        }),
{
}

/// A click means the topmost window at its place.
pub proof fn law_click_hits_the_topmost(wins: Seq<Window>, n: int, px: i32, py: i32, i: int)
    requires
        0 <= n <= wins.len(),
        0 <= i < n,
        inside((wins[i].x, wins[i].y, wins[i].w, wins[i].h), px, py),
    ensures
        hit_s(wins, n, px, py) is Some,
        hit_s(wins, n, px, py)->Some_0 >= i,
    decreases n,
{
    if i < n - 1 {
        law_click_hits_the_topmost(wins, n - 1, px, py, i);
    }
}

} // verus!
