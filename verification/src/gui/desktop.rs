//! The desktop behind the windows, and the bar at its bottom.

use super::window::{
    drawable, inside, label, queue, rect, window_s, Area, Content, Window, WindowKind, C_BORDER,
    C_TITLE_INACTIVE, C_TITLE_TEXT, LIMIT, MAX_WINDOWS,
};
use crate::framebuffer::list::{views, Draw, DrawView};
use crate::framebuffer::Color;
use vstd::prelude::*;
use vstd::string::StrSliceExecFns;

verus! {

pub const C_DESKTOP: u32 = 0x0A3D4A;

pub const C_TASKBAR: u32 = 0x101A24;

pub const C_TASKBAR_HI: u32 = 0x1E2E3E;

pub const C_ACCENT: u32 = 0x36C39B;

/// Height of the bar.
pub const TASKBAR_H: i32 = 28;

/// Where the button for a new terminal begins.
pub const NEWTERM_X: i32 = 96;

/// Width of the button for a new terminal.
pub const NEWTERM_W: i32 = 104;

/// How many of the first `n` windows are terminals.
pub open spec fn terminals_s(wins: Seq<Window>, n: int) -> nat
    decreases n,
{
    if n <= 0 {
        0
    } else {
        terminals_s(wins, n - 1) + (if wins[n - 1].kind is Terminal {
            1nat
        } else {
            0nat
        })
    }
}

/// How many of the first `n` windows belong to programs.
pub open spec fn clients_s(wins: Seq<Window>, n: int) -> nat
    decreases n,
{
    if n <= 0 {
        0
    } else {
        clients_s(wins, n - 1) + (if wins[n - 1].kind is Client {
            1nat
        } else {
            0nat
        })
    }
}

/// How many windows are terminals.
pub fn terminal_window_count(wins: &Vec<Window>) -> (r: usize)
    ensures
        r == terminals_s(wins@, wins@.len() as int),
        r <= wins@.len(),
{
    let mut n: usize = 0;
    let mut i: usize = 0;
    while i < wins.len()
        invariant
            i <= wins@.len(),
            n <= i,
            n == terminals_s(wins@, i as int),
        decreases wins@.len() - i,
    {
        if let WindowKind::Terminal { .. } = wins[i].kind {
            n = n + 1;
        }
        i = i + 1;
    }
    n
}

/// How many windows belong to programs.
pub fn client_window_count(wins: &Vec<Window>) -> (r: usize)
    ensures
        r == clients_s(wins@, wins@.len() as int),
        r <= wins@.len(),
{
    let mut n: usize = 0;
    let mut i: usize = 0;
    while i < wins.len()
        invariant
            i <= wins@.len(),
            n <= i,
            n == clients_s(wins@, i as int),
        decreases wins@.len() - i,
    {
        if let WindowKind::Client { .. } = wins[i].kind {
            n = n + 1;
        }
        i = i + 1;
    }
    n
}

/// How many more terminals can be opened, out of `max`.
pub fn free_terminal_slots(wins: &Vec<Window>, max: usize) -> (r: usize)
    ensures
        r == (if terminals_s(wins@, wins@.len() as int) <= max {
            max - terminals_s(wins@, wins@.len() as int)
        } else {
            0
        }),
{
    let n: usize = terminal_window_count(wins);
    if n <= max {
        max - n
    } else {
        0
    }
}

/// Where the button for a new terminal is.
pub open spec fn new_term_s(screen_h: i32) -> Area {
    (NEWTERM_X, (screen_h - TASKBAR_H + 4) as i32, NEWTERM_W, (TASKBAR_H - 8) as i32)
}

/// Where the button for a new terminal is.
pub fn new_term_button_rect(screen_h: i32) -> (r: Area)
    requires
        0 <= screen_h <= LIMIT,
    ensures
        r == new_term_s(screen_h),
{
    (NEWTERM_X, screen_h - TASKBAR_H + 4, NEWTERM_W, TASKBAR_H - 8)
}

/// Whether a point is in the button for a new terminal.
pub fn point_in_new_term(px: i32, py: i32, screen_h: i32) -> (r: bool)
    requires
        0 <= screen_h <= LIMIT,
    ensures
        r == inside(new_term_s(screen_h), px, py),
{
    let (bx, by, bw, bh) = new_term_button_rect(screen_h);
    px >= bx && px < bx + bw && py >= by && py < by + bh
}

/// The background and its writing.
pub open spec fn background_s() -> Seq<DrawView> {
    seq![
        DrawView::Clear { color: Color(C_DESKTOP) },
        DrawView::Scaled { text: "PICKLE OS"@, x: 24, y: 24, color: Color(C_ACCENT), scale: 3 },
        label("a memory-safe microkernel desktop, drawn pixel by pixel"@, 24, 56, 0xBFEADF),
    ]
}

/// The bar with its name and the button for a new terminal, which is dim when no
/// more can be opened.
pub open spec fn bar_s(screen_w: int, top: int, can_open: bool) -> Seq<DrawView> {
    let c = if can_open {
        C_ACCENT
    } else {
        C_TITLE_INACTIVE
    };
    seq![
        rect(0, top, screen_w, 28, C_TASKBAR),
        rect(0, top, screen_w, 2, C_ACCENT),
        label("PICKLE"@, 10, top + 10, C_ACCENT),
        label("OS"@, 66, top + 10, C_TITLE_TEXT),
        rect(96, top + 4, 104, 20, C_TASKBAR_HI),
        DrawView::Outline { x: 96, y: top + 4, w: 104, h: 20, color: Color(c) },
        label("+ Terminal"@, 104, top + 10, c),
    ]
}

/// The beginning of a title.
pub open spec fn short(t: Seq<char>) -> Seq<char> {
    if t.len() <= 16 {
        t
    } else {
        t.take(16)
    }
}

/// The button of a window in the bar.
pub open spec fn button_s(win: Window, i: int, focused: bool, top: int) -> Seq<DrawView> {
    let x = 210 + 156 * i;
    seq![
        rect(
            x,
            top + 4,
            150,
            20,
            if focused {
                C_TASKBAR_HI
            } else {
                C_TASKBAR
            },
        ),
        DrawView::Outline { x, y: top + 4, w: 150, h: 20, color: Color(C_BORDER) },
        DrawView::Rect {
            x: x + 4,
            y: top + 8,
            w: 6,
            h: 6,
            color: if focused {
                win.accent
            } else {
                Color(C_TITLE_INACTIVE)
            },
        },
        label(short(win.title@), x + 16, top + 10, C_TITLE_TEXT),
    ]
}

/// The buttons of the first `n` windows.
pub open spec fn buttons_s(wins: Seq<Window>, focus: int, top: int, n: int) -> Seq<DrawView>
    decreases n,
{
    if n <= 0 {
        Seq::empty()
    } else {
        buttons_s(wins, focus, top, n - 1) + button_s(wins[n - 1], n - 1, n - 1 == focus, top)
    }
}

/// The first `n` windows, from the back to the front.
pub open spec fn windows_s(
    wins: Seq<Window>,
    contents: Seq<Content>,
    focus: int,
    blink_on: bool,
    n: int,
) -> Seq<DrawView>
    decreases n,
{
    if n <= 0 {
        Seq::empty()
    } else {
        windows_s(wins, contents, focus, blink_on, n - 1) + window_s(
            wins[n - 1],
            contents[n - 1],
            n - 1 == focus,
            blink_on,
        )
    }
}

/// The whole desktop.
pub open spec fn desktop_s(
    screen_w: int,
    screen_h: int,
    wins: Seq<Window>,
    contents: Seq<Content>,
    focus: int,
    blink_on: bool,
    max_terms: nat,
) -> Seq<DrawView> {
    let top = screen_h - 28;
    let n = wins.len() as int;
    background_s() + bar_s(screen_w, top, terminals_s(wins, n) < max_terms) + buttons_s(
        wins,
        focus,
        top,
        n,
    ) + windows_s(wins, contents, focus, blink_on, n)
}

/// The windows and what they show are in order.
pub open spec fn scene_ok(wins: Seq<Window>, contents: Seq<Content>) -> bool {
    &&& wins.len() <= MAX_WINDOWS
    &&& contents.len() == wins.len()
    &&& forall|i: int| 0 <= i < wins.len() ==> (#[trigger] wins[i]).wf()
    &&& forall|i: int| 0 <= i < contents.len() ==> (#[trigger] contents[i]).wf()
}

/// Draws the background.
fn draw_background(list: &mut Vec<Draw>)
    requires
        drawable(old(list)@),
    ensures
        drawable(final(list)@),
        views(final(list)@) == views(old(list)@) + background_s(),
{
    let ghost v0 = views(list@);
    proof {
        reveal_strlit("PICKLE OS");
        reveal_strlit("a memory-safe microkernel desktop, drawn pixel by pixel");
    }
    queue(list, Draw::Clear { color: Color(C_DESKTOP) });
    let name = "PICKLE OS".to_owned();
    queue(list, Draw::Scaled { text: name, x: 24, y: 24, color: Color(C_ACCENT), scale: 3 });
    let motto = "a memory-safe microkernel desktop, drawn pixel by pixel".to_owned();
    queue(list, Draw::Text { text: motto, x: 24, y: 56, color: Color(0xBFEADF) });
    assert(views(list@) =~= v0 + background_s());
}

/// Draws the bar.
fn draw_bar(list: &mut Vec<Draw>, screen_w: usize, top: usize, can_open: bool)
    requires
        drawable(old(list)@),
        top <= LIMIT,
    ensures
        drawable(final(list)@),
        views(final(list)@) == views(old(list)@) + bar_s(screen_w as int, top as int, can_open),
{
    let ghost v0 = views(list@);
    proof {
        reveal_strlit("PICKLE");
        reveal_strlit("OS");
        reveal_strlit("+ Terminal");
    }
    let c: u32 = if can_open {
        C_ACCENT
    } else {
        C_TITLE_INACTIVE
    };
    queue(list, Draw::Rect { x: 0, y: top, w: screen_w, h: 28, color: Color(C_TASKBAR) });
    queue(list, Draw::Rect { x: 0, y: top, w: screen_w, h: 2, color: Color(C_ACCENT) });
    let a = "PICKLE".to_owned();
    queue(list, Draw::Text { text: a, x: 10, y: top + 10, color: Color(C_ACCENT) });
    let b = "OS".to_owned();
    queue(list, Draw::Text { text: b, x: 66, y: top + 10, color: Color(C_TITLE_TEXT) });
    queue(list, Draw::Rect { x: 96, y: top + 4, w: 104, h: 20, color: Color(C_TASKBAR_HI) });
    queue(list, Draw::Outline { x: 96, y: top + 4, w: 104, h: 20, color: Color(c) });
    let t = "+ Terminal".to_owned();
    queue(list, Draw::Text { text: t, x: 104, y: top + 10, color: Color(c) });
    assert(views(list@) =~= v0 + bar_s(screen_w as int, top as int, can_open));
}

/// Draws the button of a window.
fn draw_button(list: &mut Vec<Draw>, win: &Window, i: usize, focused: bool, top: usize)
    requires
        drawable(old(list)@),
        win.wf(),
        i <= MAX_WINDOWS,
        top <= LIMIT,
    ensures
        drawable(final(list)@),
        views(final(list)@) == views(old(list)@) + button_s(*win, i as int, focused, top as int),
{
    let ghost v0 = views(list@);
    let x: usize = 210 + 156 * i;
    let back: u32 = if focused {
        C_TASKBAR_HI
    } else {
        C_TASKBAR
    };
    let accent = if focused {
        win.accent
    } else {
        Color(C_TITLE_INACTIVE)
    };
    queue(list, Draw::Rect { x, y: top + 4, w: 150, h: 20, color: Color(back) });
    queue(list, Draw::Outline { x, y: top + 4, w: 150, h: 20, color: Color(C_BORDER) });
    queue(list, Draw::Rect { x: x + 4, y: top + 8, w: 6, h: 6, color: accent });
    let title = win.title.as_str();
    let text: String = if title.unicode_len() <= 16 {
        title.to_owned()
    } else {
        title.substring_char(0, 16).to_owned()
    };
    assert(text@ =~= short(win.title@));
    queue(list, Draw::Text { text, x: x + 16, y: top + 10, color: Color(C_TITLE_TEXT) });
    assert(views(list@) =~= v0 + button_s(*win, i as int, focused, top as int));
}

/// Draws the desktop with all windows; the focused one comes last.
pub fn draw_desktop(
    screen_w: i32,
    screen_h: i32,
    wins: &Vec<Window>,
    contents: &Vec<Content>,
    focus: usize,
    blink_on: bool,
    max_terms: usize,
) -> (list: Vec<Draw>)
    requires
        0 <= screen_w <= LIMIT,
        TASKBAR_H <= screen_h <= LIMIT,
        scene_ok(wins@, contents@),
    ensures
        drawable(list@),
        views(list@) == desktop_s(
            screen_w as int,
            screen_h as int,
            wins@,
            contents@,
            focus as int,
            blink_on,
            max_terms as nat,
        ),
{
    let mut list: Vec<Draw> = Vec::new();
    let top: usize = (screen_h - TASKBAR_H) as usize;
    let can_open = free_terminal_slots(wins, max_terms) > 0;
    assert(views(list@) =~= Seq::<DrawView>::empty());
    draw_background(&mut list);
    assert(views(list@) =~= background_s());
    draw_bar(&mut list, screen_w as usize, top, can_open);
    let ghost v1 = views(list@);
    let n: usize = wins.len();
    let mut i: usize = 0;
    assert(v1 + buttons_s(wins@, focus as int, top as int, 0) =~= v1);
    while i < n
        invariant
            scene_ok(wins@, contents@),
            n == wins@.len(),
            i <= n,
            top <= LIMIT,
            drawable(list@),
            views(list@) == v1 + buttons_s(wins@, focus as int, top as int, i as int),
        decreases n - i,
    {
        let ghost before = views(list@);
        assert(wins@[i as int].wf());
        draw_button(&mut list, &wins[i], i, i == focus, top);
        i = i + 1;
        assert(views(list@) =~= v1 + buttons_s(wins@, focus as int, top as int, i as int));
    }
    let ghost v2 = views(list@);
    let mut j: usize = 0;
    assert(v2 + windows_s(wins@, contents@, focus as int, blink_on, 0) =~= v2);
    while j < n
        invariant
            scene_ok(wins@, contents@),
            n == wins@.len(),
            j <= n,
            drawable(list@),
            views(list@) == v2 + windows_s(wins@, contents@, focus as int, blink_on, j as int),
        decreases n - j,
    {
        assert(wins@[j as int].wf());
        assert(contents@[j as int].wf());
        wins[j].draw(&mut list, &contents[j], j == focus, blink_on);
        j = j + 1;
        assert(views(list@) =~= v2 + windows_s(
            wins@,
            contents@,
            focus as int,
            blink_on,
            j as int,
        ));
    }
    list
}

} // verus!
