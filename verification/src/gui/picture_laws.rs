//! What the desktop looks like: which window shows at a point, and what it shows.

use super::compositor::hit_s;
use super::desktop::{
    background_s, bar_s, buttons_s, desktop_s, scene_ok, terminals_s, windows_s,
};
use super::window::{
    cell_s, cells_s, content_s, cursor_s, frame_s, inked, least, pixels_s, window_s, Content, Grid,
    Pixels, Window,
};
use crate::framebuffer::draw::lit;
use crate::framebuffer::list::{paint_list, paint_of, DrawView};
use crate::framebuffer::Color;
use vstd::prelude::*;

verus! {

/// The colour that a list of things leaves at a point, if any.
pub open spec fn shows(list: Seq<DrawView>, x: int, y: int) -> Option<Color> {
    paint_list(list)(x, y)
}

/// A point is in a rectangle.
pub open spec fn within(x: int, y: int, left: int, top: int, w: int, h: int) -> bool {
    left <= x < left + w && top <= y < top + h
}

/// A point is in a window.
pub open spec fn in_window(win: Window, x: int, y: int) -> bool {
    within(x, y, win.x as int, win.y as int, win.w as int, win.h as int)
}

/// A point is in the shadow that a window casts.
pub open spec fn in_shadow(win: Window, x: int, y: int) -> bool {
    within(x, y, win.x + 4, win.y + 4, win.w as int, win.h as int)
}

/// Of two lists, the later one covers the earlier one.
pub proof fn lemma_later_covers(a: Seq<DrawView>, b: Seq<DrawView>, x: int, y: int)
    ensures
        shows(a + b, x, y) == (match shows(b, x, y) {
            Some(c) => Some(c),
            None => shows(a, x, y),
        }),
    decreases b.len(),
{
    if b.len() == 0 {
        assert(a + b =~= a);
    } else {
        assert((a + b).drop_last() =~= a + b.drop_last());
        assert((a + b).last() == b.last());
        lemma_later_covers(a, b.drop_last(), x, y);
    }
}

/// Where nothing of a list paints, the list does not.
pub proof fn lemma_nothing(list: Seq<DrawView>, x: int, y: int)
    requires
        forall|k: int| 0 <= k < list.len() ==> paint_of(#[trigger] list[k])(x, y) is None,
    ensures
        shows(list, x, y) is None,
    decreases list.len(),
{
    if list.len() > 0 {
        assert forall|k: int| 0 <= k < list.drop_last().len() implies paint_of(
            #[trigger] list.drop_last()[k],
        )(x, y) is None by {
            assert(list.drop_last()[k] == list[k]);
        }
        lemma_nothing(list.drop_last(), x, y);
        assert(list.last() == list[list.len() - 1]);
    }
}

/// What the last of the things that paint a point paints is what shows.
pub proof fn lemma_last_shows(list: Seq<DrawView>, k: int, x: int, y: int)
    requires
        0 <= k < list.len(),
        paint_of(list[k])(x, y) is Some,
        forall|j: int| k < j < list.len() ==> paint_of(#[trigger] list[j])(x, y) is None,
    ensures
        shows(list, x, y) == paint_of(list[k])(x, y),
    decreases list.len(),
{
    let n = list.len() - 1;
    if k < n {
        assert(paint_of(list[n])(x, y) is None);
        assert forall|j: int| k < j < list.drop_last().len() implies paint_of(
            #[trigger] list.drop_last()[j],
        )(x, y) is None by {
            assert(list.drop_last()[j] == list[j]);
        }
        lemma_last_shows(list.drop_last(), k, x, y);
    }
}

/// A window paints all of its rectangle.
proof fn lemma_window_is_opaque(
    win: Window,
    content: Content,
    active: bool,
    blink_on: bool,
    x: int,
    y: int,
)
    requires
        in_window(win, x, y),
    ensures
        shows(window_s(win, content, active, blink_on), x, y) is Some,
{
    let frame = frame_s(win, active);
    let rest = content_s(win, content, active, blink_on).push(
        window_s(win, content, active, blink_on).last(),
    );
    assert(window_s(win, content, active, blink_on) =~= frame + rest);
    lemma_later_covers(frame, rest, x, y);
    let back = frame.take(2);
    assert(frame =~= back + frame.skip(2));
    lemma_later_covers(back, frame.skip(2), x, y);
    assert(paint_of(back[1])(x, y) is Some);
    lemma_last_shows(back, 1, x, y);
}

/// The first `n` windows show, where the ones from `i` on paint nothing, what the ones
/// before do.
pub proof fn lemma_windows(
    wins: Seq<Window>,
    contents: Seq<Content>,
    focus: int,
    blink_on: bool,
    i: int,
    n: int,
    x: int,
    y: int,
)
    requires
        0 <= i <= n <= wins.len(),
        forall|j: int|
            i <= j < n ==> shows(
                window_s(#[trigger] wins[j], contents[j], j == focus, blink_on),
                x,
                y,
            ) is None,
    ensures
        shows(windows_s(wins, contents, focus, blink_on, n), x, y) == shows(
            windows_s(wins, contents, focus, blink_on, i),
            x,
            y,
        ),
    decreases n - i,
{
    if i < n {
        lemma_windows(wins, contents, focus, blink_on, i, n - 1, x, y);
        assert(shows(window_s(wins[n - 1], contents[n - 1], n - 1 == focus, blink_on), x, y) is None);
        lemma_later_covers(
            windows_s(wins, contents, focus, blink_on, n - 1),
            window_s(wins[n - 1], contents[n - 1], n - 1 == focus, blink_on),
            x,
            y,
        );
    }
}

/// At a point of a window that no window in front of it paints, the desktop shows what
/// this window shows: windows cover what is behind them.
pub proof fn law_front_window_shows(
    screen_w: int,
    screen_h: int,
    wins: Seq<Window>,
    contents: Seq<Content>,
    focus: int,
    blink_on: bool,
    max_terms: nat,
    i: int,
    x: int,
    y: int,
)
    requires
        0 <= i < wins.len(),
        in_window(wins[i], x, y),
        forall|j: int|
            i < j < wins.len() ==> shows(
                window_s(#[trigger] wins[j], contents[j], j == focus, blink_on),
                x,
                y,
            ) is None,
    ensures
        shows(desktop_s(screen_w, screen_h, wins, contents, focus, blink_on, max_terms), x, y)
            == shows(window_s(wins[i], contents[i], i == focus, blink_on), x, y),
        shows(window_s(wins[i], contents[i], i == focus, blink_on), x, y) is Some,
{
    let n = wins.len() as int;
    let top = screen_h - 28;
    let back = background_s() + bar_s(screen_w, top, terminals_s(wins, n) < max_terms) + buttons_s(
        wins,
        focus,
        top,
        n,
    );
    lemma_later_covers(back, windows_s(wins, contents, focus, blink_on, n), x, y);
    lemma_windows(wins, contents, focus, blink_on, i + 1, n, x, y);
    lemma_window_is_opaque(wins[i], contents[i], i == focus, blink_on, x, y);
    lemma_later_covers(
        windows_s(wins, contents, focus, blink_on, i),
        window_s(wins[i], contents[i], i == focus, blink_on),
        x,
        y,
    );
}

/// What a window shows has room in it.
pub open spec fn has_room(win: Window, content: Content) -> bool {
    &&& 6 + 8 * win.title@.len() <= win.w
    &&& 18 <= win.w
    &&& 22 <= win.h
    &&& match content {
        Content::Body => {
            &&& 28 + 11 * win.body@.len() <= win.h
            &&& forall|k: int|
                0 <= k < win.body@.len() ==> 8 + 8 * (#[trigger] win.body@[k])@.len() <= win.w
        },
        Content::Terminal(g) => g.wf() && 8 + 8 * g.cols <= win.w && 24 + 10 * g.rows <= win.h,
        _ => true,
    }
}

/// Every cell of a terminal is drawn in its place.
proof fn lemma_cells(win: Window, g: Grid, k: int, x: int, y: int)
    requires
        g.wf(),
        0 <= k <= g.cols * g.rows,
        !within(x, y, win.x + 8, win.y + 24, 8 * g.cols, 10 * g.rows),
    ensures
        shows(cells_s(win, g, k), x, y) is None,
    decreases k,
{
    if k > 0 {
        lemma_cells(win, g, k - 1, x, y);
        let c = g.cols as int;
        let j = k - 1;
        assert(c > 0 && 0 <= j % c < c && 0 <= j / c < g.rows) by (nonlinear_arith)
            requires
                0 <= j < c * g.rows,
                c >= 0,
        ;
        assert forall|t: int| 0 <= t < cell_s(win, g, j).len() implies paint_of(
            #[trigger] cell_s(win, g, j)[t],
        )(x, y) is None by {}
        lemma_nothing(cell_s(win, g, j), x, y);
        lemma_later_covers(cells_s(win, g, k - 1), cell_s(win, g, j), x, y);
    }
}

proof fn lemma_cursor(win: Window, g: Grid, active: bool, blink_on: bool, x: int, y: int)
    requires
        !within(x, y, win.x + 8, win.y + 24, 8 * g.cols, 10 * g.rows),
    ensures
        shows(cursor_s(win, g, active, blink_on), x, y) is None,
{
    let list = cursor_s(win, g, active, blink_on);
    assert forall|t: int| 0 <= t < list.len() implies paint_of(#[trigger] list[t])(
        x,
        y,
    ) is None by {}
    lemma_nothing(list, x, y);
}

proof fn lemma_pixels(win: Window, p: Pixels, x: int, y: int)
    requires
        win.wf(),
        !in_window(win, x, y),
    ensures
        ({
            let k = least(win.w as int, p.width as int) * least(win.h - 20, p.height as int);
            shows(pixels_s(win, p, k), x, y) is None
        }),
{
    let dw = least(win.w as int, p.width as int);
    let dh = least(win.h - 20, p.height as int);
    let list = pixels_s(win, p, dw * dh);
    assert(dw * dh >= 0) by (nonlinear_arith)
        requires
            dw >= 0,
            dh >= 0,
    ;
    assert forall|t: int| 0 <= t < list.len() implies paint_of(#[trigger] list[t])(
        x,
        y,
    ) is None by {
        assert(dw > 0 && 0 <= t % dw < dw && 0 <= t / dw < dh) by (nonlinear_arith)
            requires
                0 <= t < dw * dh,
                dw >= 0,
        ;
    }
    lemma_nothing(list, x, y);
}

/// A window with room for what it shows paints only its rectangle and its shadow.
#[verifier::spinoff_prover]
#[verifier::rlimit(60)]
pub proof fn law_windows_keep_to_their_place(
    win: Window,
    content: Content,
    active: bool,
    blink_on: bool,
    x: int,
    y: int,
)
    requires
        win.wf(),
        has_room(win, content),
        !in_window(win, x, y),
        !in_shadow(win, x, y),
    ensures
        shows(window_s(win, content, active, blink_on), x, y) is None,
{
    reveal_strlit("x");
    let frame = frame_s(win, active);
    let inner = content_s(win, content, active, blink_on);
    let edge = seq![window_s(win, content, active, blink_on).last()];
    assert(window_s(win, content, active, blink_on) =~= frame + inner + edge);
    lemma_later_covers(frame + inner, edge, x, y);
    lemma_later_covers(frame, inner, x, y);
    assert forall|t: int| 0 <= t < frame.len() implies paint_of(#[trigger] frame[t])(
        x,
        y,
    ) is None by {}
    lemma_nothing(frame, x, y);
    assert forall|t: int| 0 <= t < edge.len() implies paint_of(#[trigger] edge[t])(
        x,
        y,
    ) is None by {}
    lemma_nothing(edge, x, y);
    match content {
        Content::Body => {
            assert forall|t: int| 0 <= t < inner.len() implies paint_of(#[trigger] inner[t])(
                x,
                y,
            ) is None by {
                assert(8 + 8 * win.body@[t]@.len() <= win.w);
            }
            lemma_nothing(inner, x, y);
        },
        Content::Terminal(g) => {
            assert(!within(x, y, win.x + 8, win.y + 24, 8 * g.cols, 10 * g.rows));
            lemma_cells(win, g, g.cols * g.rows, x, y);
            lemma_cursor(win, g, active, blink_on, x, y);
            lemma_later_covers(
                cells_s(win, g, g.cols * g.rows),
                cursor_s(win, g, active, blink_on),
                x,
                y,
            );
        },
        Content::Client(p) => lemma_pixels(win, p, x, y),
        Content::Nothing => lemma_nothing(inner, x, y),
    }
}

/// The window at a click has no window in front of it there.
proof fn lemma_hit(wins: Seq<Window>, n: int, px: i32, py: i32)
    requires
        0 <= n <= wins.len(),
    ensures
        hit_s(wins, n, px, py) matches Some(i) ==> {
            &&& 0 <= i < n
            &&& in_window(wins[i], px as int, py as int)
            &&& forall|j: int| i < j < n ==> !in_window(#[trigger] wins[j], px as int, py as int)
        },
        hit_s(wins, n, px, py) is None ==> forall|j: int|
            0 <= j < n ==> !in_window(#[trigger] wins[j], px as int, py as int),
    decreases n,
{
    if n > 0 {
        lemma_hit(wins, n - 1, px, py);
    }
}

/// What shows at a point is the window that a click there means: the frontmost of those
/// that hold the point. Shadows of windows in front of it aside, its picture is seen.
pub proof fn law_what_shows_is_what_is_hit(
    screen_w: int,
    screen_h: int,
    wins: Seq<Window>,
    contents: Seq<Content>,
    focus: int,
    blink_on: bool,
    max_terms: nat,
    px: i32,
    py: i32,
)
    requires
        scene_ok(wins, contents),
        hit_s(wins, wins.len() as int, px, py) is Some,
        forall|j: int| 0 <= j < wins.len() ==> has_room(#[trigger] wins[j], contents[j]),
        forall|j: int|
            hit_s(wins, wins.len() as int, px, py)->Some_0 < j < wins.len() ==> !in_shadow(
                #[trigger] wins[j],
                px as int,
                py as int,
            ),
    ensures
        ({
            let i = hit_s(wins, wins.len() as int, px, py)->Some_0;
            let list = desktop_s(screen_w, screen_h, wins, contents, focus, blink_on, max_terms);
            &&& shows(list, px as int, py as int) == shows(
                window_s(wins[i], contents[i], i == focus, blink_on),
                px as int,
                py as int,
            )
            &&& shows(list, px as int, py as int) is Some
            &&& 0 <= i < wins.len() && in_window(wins[i], px as int, py as int)
            &&& forall|j: int|
                i < j < wins.len() ==> !in_window(#[trigger] wins[j], px as int, py as int)
        }),
{
    let n = wins.len() as int;
    lemma_hit(wins, n, px, py);
    let i = hit_s(wins, n, px, py)->Some_0;
    assert forall|j: int| i < j < n implies shows(
        window_s(#[trigger] wins[j], contents[j], j == focus, blink_on),
        px as int,
        py as int,
    ) is None by {
        assert(has_room(wins[j], contents[j]));
        law_windows_keep_to_their_place(
            wins[j],
            contents[j],
            j == focus,
            blink_on,
            px as int,
            py as int,
        );
    }
    law_front_window_shows(
        screen_w,
        screen_h,
        wins,
        contents,
        focus,
        blink_on,
        max_terms,
        i,
        px as int,
        py as int,
    );
}

/// A window has a border all around, of one pixel and one colour.
pub proof fn law_windows_have_a_border(
    win: Window,
    content: Content,
    active: bool,
    blink_on: bool,
    x: int,
    y: int,
)
    requires
        in_window(win, x, y),
        x == win.x || x == win.x + win.w - 1 || y == win.y || y == win.y + win.h - 1,
    ensures
        shows(window_s(win, content, active, blink_on), x, y) == Some(Color(0x05121C)),
{
    let list = window_s(win, content, active, blink_on);
    lemma_last_shows(list, list.len() - 1, x, y);
}

/// Inside its border, the client area of a program's window shows the pixels that the
/// program put there: that of column `c` and row `r` is `c` to the right and `r` below
/// the corner of the area, which is twenty pixels below that of the window.
pub proof fn law_programs_see_their_pixels(
    win: Window,
    p: Pixels,
    active: bool,
    blink_on: bool,
    c: int,
    r: int,
)
    requires
        win.wf(),
        p.wf(),
        0 < c < win.w - 1,
        0 <= r < win.h - 21,
        c < p.width && r < p.height,
    ensures
        shows(window_s(win, Content::Client(p), active, blink_on), win.x + c, win.y + 20 + r) == Some(
            Color(p.data@[r * p.width + c]),
        ),
{
    let (x, y) = (win.x + c, win.y + 20 + r);
    let dw = least(win.w as int, p.width as int);
    let dh = least(win.h - 20, p.height as int);
    let frame = frame_s(win, active);
    let inner = pixels_s(win, p, dw * dh);
    let list = window_s(win, Content::Client(p), active, blink_on);
    let edge = seq![list.last()];
    assert(list =~= frame + inner + edge);
    lemma_later_covers(frame + inner, edge, x, y);
    lemma_later_covers(frame, inner, x, y);
    assert(paint_of(edge[0])(x, y) is None);
    lemma_nothing(edge, x, y);
    let k = r * dw + c;
    assert(0 <= k < dw * dh && k / dw == r && k % dw == c) by (nonlinear_arith)
        requires
            0 <= c < dw,
            0 <= r < dh,
            k == r * dw + c,
    ;
    assert(paint_of(inner[k])(x, y) == Some(Color(p.data@[r * p.width + c])));
    assert forall|j: int| k < j < inner.len() implies paint_of(#[trigger] inner[j])(
        x,
        y,
    ) is None by {
        if j % dw == c && j / dw == r {
            assert(j == dw * (j / dw) + j % dw) by (nonlinear_arith)
                requires
                    dw > 0,
            ;
            assert(dw * (j / dw) == r * dw) by (nonlinear_arith)
                requires
                    j / dw == r,
            ;
            assert(false);
        }
    }
    lemma_last_shows(inner, k, x, y);
}

/// The title bar tells which window is focused: beside the title and the close button it
/// has one colour if it is, and another if not.
pub proof fn law_focused_window_stands_out(
    win: Window,
    content: Content,
    active: bool,
    blink_on: bool,
    x: int,
    y: int,
)
    requires
        win.wf(),
        has_room(win, content),
        0 < win.w,
        win.x + 6 + 8 * win.title@.len() <= x < win.x + win.w - 18,
        win.x < x,
        win.y < y < win.y + 20,
    ensures
        shows(window_s(win, content, active, blink_on), x, y) == Some(
            Color(
                if active {
                    0x2A6CB0
                } else {
                    0x3A4654
                },
            ),
        ),
{
    reveal_strlit("x");
    let frame = frame_s(win, active);
    let inner = content_s(win, content, active, blink_on);
    let list = window_s(win, content, active, blink_on);
    let edge = seq![list.last()];
    assert(list =~= frame + inner + edge);
    lemma_later_covers(frame + inner, edge, x, y);
    lemma_later_covers(frame, inner, x, y);
    assert(paint_of(edge[0])(x, y) is None);
    lemma_nothing(edge, x, y);
    lemma_content_is_below(win, content, active, blink_on, x, y);
    assert forall|j: int| 2 < j < frame.len() implies paint_of(#[trigger] frame[j])(
        x,
        y,
    ) is None by {}
    lemma_last_shows(frame, 2, x, y);
}

/// What a window shows is below its title bar.
proof fn lemma_content_is_below(
    win: Window,
    content: Content,
    active: bool,
    blink_on: bool,
    x: int,
    y: int,
)
    requires
        win.wf(),
        has_room(win, content),
        y < win.y + 20,
    ensures
        shows(content_s(win, content, active, blink_on), x, y) is None,
{
    let inner = content_s(win, content, active, blink_on);
    match content {
        Content::Body => {
            assert forall|t: int| 0 <= t < inner.len() implies paint_of(#[trigger] inner[t])(
                x,
                y,
            ) is None by {}
            lemma_nothing(inner, x, y);
        },
        Content::Terminal(g) => {
            lemma_cells(win, g, g.cols * g.rows, x, y);
            lemma_cursor(win, g, active, blink_on, x, y);
            lemma_later_covers(
                cells_s(win, g, g.cols * g.rows),
                cursor_s(win, g, active, blink_on),
                x,
                y,
            );
        },
        Content::Client(p) => {
            let dw = least(win.w as int, p.width as int);
            assert forall|t: int| 0 <= t < inner.len() implies paint_of(#[trigger] inner[t])(
                x,
                y,
            ) is None by {
                let dh = least(win.h - 20, p.height as int);
                assert(dw > 0 && t / dw >= 0) by (nonlinear_arith)
                    requires
                        0 <= t < dw * dh,
                        dw >= 0,
                ;
            }
            lemma_nothing(inner, x, y);
        },
        Content::Nothing => lemma_nothing(inner, x, y),
    }
}

/// Where a click closes a window there is its close button, in the colours of the button
/// and of its cross.
pub proof fn law_close_button_is_seen(
    win: Window,
    content: Content,
    active: bool,
    blink_on: bool,
    x: int,
    y: int,
)
    requires
        win.wf(),
        has_room(win, content),
        ({
            let c = win.close_rect_s();
            within(x, y, c.0 as int, c.1 as int, c.2 as int, c.3 as int)
        }),
        win.x < x,
    ensures
        in_window(win, x, y),
        ({
            let s = shows(window_s(win, content, active, blink_on), x, y);
            s == Some(Color(0xD24B4B)) || s == Some(Color(0xFFFFFF))
        }),
{
    reveal_strlit("x");
    let frame = frame_s(win, active);
    let inner = content_s(win, content, active, blink_on);
    let list = window_s(win, content, active, blink_on);
    let edge = seq![list.last()];
    assert(list =~= frame + inner + edge);
    lemma_later_covers(frame + inner, edge, x, y);
    lemma_later_covers(frame, inner, x, y);
    assert(paint_of(edge[0])(x, y) is None);
    lemma_nothing(edge, x, y);
    lemma_content_is_below(win, content, active, blink_on, x, y);
    assert(frame.len() == 7);
    assert(paint_of(frame[5])(x, y) == Some(Color(0xD24B4B)));
    if paint_of(frame[6])(x, y) is Some {
        lemma_last_shows(frame, 6, x, y);
    } else {
        lemma_last_shows(frame, 5, x, y);
    }
}

/// No other cell of a terminal paints where one is.
proof fn lemma_cell_alone(win: Window, g: Grid, n: int, col: int, row: int, x: int, y: int)
    requires
        g.wf(),
        0 <= col < g.cols && 0 <= row < g.rows,
        0 <= n <= g.cols * g.rows,
        within(x, y, win.x + 8 + 8 * col, win.y + 24 + 10 * row, 8, 8),
    ensures
        shows(cells_s(win, g, n), x, y) == (if row * g.cols + col < n {
            shows(cell_s(win, g, row * g.cols + col), x, y)
        } else {
            None
        }),
    decreases n,
{
    if n > 0 {
        lemma_cell_alone(win, g, n - 1, col, row, x, y);
        let j = n - 1;
        let c = g.cols as int;
        lemma_later_covers(cells_s(win, g, j), cell_s(win, g, j), x, y);
        assert(0 <= j % c < c && j == c * (j / c) + j % c && 0 <= j / c) by (nonlinear_arith)
            requires
                c > 0,
                j >= 0,
        ;
        if j / c == row && j % c == col {
            assert(c * (j / c) == row * c) by (nonlinear_arith)
                requires
                    j / c == row,
            ;
        } else {
            assert(row * c + col != j) by {
                if row * c + col == j {
                    assert(j / c == row && j % c == col) by (nonlinear_arith)
                        requires
                            j == row * c + col,
                            0 <= col < c,
                    ;
                }
            }
            assert forall|t: int| 0 <= t < cell_s(win, g, j).len() implies paint_of(
                #[trigger] cell_s(win, g, j)[t],
            )(x, y) is None by {}
            lemma_nothing(cell_s(win, g, j), x, y);
        }
    }
}

/// A terminal shows the characters of its cells, each in its column and row and in its
/// colour, on the colour of the terminal.
#[verifier::spinoff_prover]
#[verifier::rlimit(60)]
pub proof fn law_terminals_show_their_cells(
    win: Window,
    g: Grid,
    active: bool,
    blink_on: bool,
    col: int,
    row: int,
    dx: int,
    dy: int,
)
    requires
        win.wf(),
        win.kind is Terminal,
        has_room(win, Content::Terminal(g)),
        8 + 8 * g.cols < win.w && 24 + 10 * g.rows < win.h,
        0 <= col < g.cols && 0 <= row < g.rows,
        0 <= dx < 8 && 0 <= dy < 8,
        !(active && blink_on && g.cursor_col == col && g.cursor_row == row),
    ensures
        ({
            let (x, y) = (win.x + 8 + 8 * col + dx, win.y + 24 + 10 * row + dy);
            let c = g.cells@[row * g.cols + col];
            let ink = c.ch != ' ' && c.ch != '\0' && lit(c.ch, dx, dy);
            shows(window_s(win, Content::Terminal(g), active, blink_on), x, y) == Some(
                if !ink {
                    Color(0x0B1A12)
                } else if c.fg is Some {
                    Color(c.fg->Some_0)
                } else {
                    Color(0x9CF0B0)
                },
            )
        }),
{
    reveal_strlit("x");
    let (x, y) = (win.x + 8 + 8 * col + dx, win.y + 24 + 10 * row + dy);
    let k = row * g.cols + col;
    let n = g.cols * g.rows;
    let content = Content::Terminal(g);
    let frame = frame_s(win, active);
    let inner = content_s(win, content, active, blink_on);
    let list = window_s(win, content, active, blink_on);
    let edge = seq![list.last()];
    assert(0 <= k < n) by (nonlinear_arith)
        requires
            k == row * g.cols + col,
            n == g.cols * g.rows,
            0 <= col < g.cols,
            0 <= row < g.rows,
    ;
    assert(k / (g.cols as int) == row && k % (g.cols as int) == col) by (nonlinear_arith)
        requires
            k == row * g.cols + col,
            0 <= col < g.cols,
    ;
    assert(list =~= frame + inner + edge);
    lemma_later_covers(frame + inner, edge, x, y);
    lemma_later_covers(frame, inner, x, y);
    assert(paint_of(edge[0])(x, y) is None);
    lemma_nothing(edge, x, y);
    lemma_later_covers(cells_s(win, g, n), cursor_s(win, g, active, blink_on), x, y);
    let cursor = cursor_s(win, g, active, blink_on);
    assert forall|t: int| 0 <= t < cursor.len() implies paint_of(#[trigger] cursor[t])(
        x,
        y,
    ) is None by {}
    lemma_nothing(cursor, x, y);
    lemma_cell_alone(win, g, n, col, row, x, y);
    let cell = cell_s(win, g, k);
    if inked(g.cells@[k]) && lit(g.cells@[k].ch, dx, dy) {
        lemma_last_shows(cell, 0, x, y);
    } else {
        assert forall|t: int| 0 <= t < cell.len() implies paint_of(#[trigger] cell[t])(
            x,
            y,
        ) is None by {}
        lemma_nothing(cell, x, y);
        assert forall|j: int| 1 < j < frame.len() implies paint_of(#[trigger] frame[j])(
            x,
            y,
        ) is None by {}
        lemma_last_shows(frame, 1, x, y);
    }
}

} // verus!
