//! What the bar at the bottom of the desktop shows.

use super::desktop::{
    background_s, bar_s, button_s, buttons_s, desktop_s, new_term_s, terminals_s, windows_s,
};
use super::picture_laws::{
    lemma_last_shows, lemma_later_covers, lemma_nothing, lemma_windows, shows, within,
};
use super::window::{inside, window_s, Content, Window};
use crate::framebuffer::list::{paint_of, DrawView};
use crate::framebuffer::Color;
use vstd::prelude::*;

verus! {

/// No window paints a point.
pub open spec fn uncovered(
    wins: Seq<Window>,
    contents: Seq<Content>,
    focus: int,
    blink_on: bool,
    x: int,
    y: int,
) -> bool {
    forall|j: int|
        0 <= j < wins.len() ==> shows(
            window_s(#[trigger] wins[j], contents[j], j == focus, blink_on),
            x,
            y,
        ) is None
}

/// Where no window paints, the desktop shows the bar and its buttons over the background.
proof fn lemma_uncovered(
    screen_w: int,
    screen_h: int,
    wins: Seq<Window>,
    contents: Seq<Content>,
    focus: int,
    blink_on: bool,
    max_terms: nat,
    x: int,
    y: int,
)
    requires
        uncovered(wins, contents, focus, blink_on, x, y),
    ensures
        ({
            let n = wins.len() as int;
            let top = screen_h - 28;
            let bar = bar_s(screen_w, top, terminals_s(wins, n) < max_terms);
            shows(desktop_s(screen_w, screen_h, wins, contents, focus, blink_on, max_terms), x, y)
                == (match shows(buttons_s(wins, focus, top, n), x, y) {
                Some(c) => Some(c),
                None => match shows(bar, x, y) {
                    Some(c) => Some(c),
                    None => shows(background_s(), x, y),
                },
            })
        }),
{
    let n = wins.len() as int;
    let top = screen_h - 28;
    let bar = bar_s(screen_w, top, terminals_s(wins, n) < max_terms);
    let buttons = buttons_s(wins, focus, top, n);
    let windows = windows_s(wins, contents, focus, blink_on, n);
    lemma_windows(wins, contents, focus, blink_on, 0, n, x, y);
    assert(shows(windows_s(wins, contents, focus, blink_on, 0), x, y) is None);
    lemma_later_covers(background_s() + bar + buttons, windows, x, y);
    lemma_later_covers(background_s() + bar, buttons, x, y);
    lemma_later_covers(background_s(), bar, x, y);
}

/// The buttons keep to their places: the `j`th takes 150 of the 156 pixels from 210 and
/// 156 times `j` on, in the middle rows of the bar.
proof fn lemma_button_keeps(win: Window, j: int, focused: bool, top: int, x: int, y: int)
    requires
        !within(x, y, 210 + 156 * j, top + 4, 150, 20),
    ensures
        shows(button_s(win, j, focused, top), x, y) is None,
{
    let list = button_s(win, j, focused, top);
    assert forall|t: int| 0 <= t < list.len() implies paint_of(#[trigger] list[t])(
        x,
        y,
    ) is None by {}
    lemma_nothing(list, x, y);
}

proof fn lemma_buttons_keep(wins: Seq<Window>, focus: int, top: int, n: int, x: int, y: int)
    requires
        0 <= n <= wins.len(),
        x >= 210 + 156 * n || x < 210 || y < top + 4 || y >= top + 24,
    ensures
        shows(buttons_s(wins, focus, top, n), x, y) is None,
    decreases n,
{
    if n > 0 {
        lemma_buttons_keep(wins, focus, top, n - 1, x, y);
        lemma_button_keeps(wins[n - 1], n - 1, n - 1 == focus, top, x, y);
        lemma_later_covers(
            buttons_s(wins, focus, top, n - 1),
            button_s(wins[n - 1], n - 1, n - 1 == focus, top),
            x,
            y,
        );
    }
}

proof fn lemma_button_shows(wins: Seq<Window>, focus: int, top: int, n: int, i: int, x: int, y: int)
    requires
        0 <= i < n <= wins.len(),
        within(x, y, 210 + 156 * i, top + 4, 150, 20),
    ensures
        shows(buttons_s(wins, focus, top, n), x, y) == shows(
            button_s(wins[i], i, i == focus, top),
            x,
            y,
        ),
    decreases n,
{
    let here = button_s(wins[n - 1], n - 1, n - 1 == focus, top);
    lemma_later_covers(buttons_s(wins, focus, top, n - 1), here, x, y);
    if i < n - 1 {
        lemma_button_keeps(wins[n - 1], n - 1, n - 1 == focus, top, x, y);
        lemma_button_shows(wins, focus, top, n - 1, i, x, y);
    } else {
        lemma_buttons_keep(wins, focus, top, n - 1, x, y);
    }
}

/// Each window has a button in the bar, in the order of the windows, with a small square
/// in it: in the window's own colour if the window is focused, and gray otherwise.
#[verifier::spinoff_prover]
pub proof fn law_windows_have_buttons(
    screen_w: int,
    screen_h: int,
    wins: Seq<Window>,
    contents: Seq<Content>,
    focus: int,
    blink_on: bool,
    max_terms: nat,
    i: int,
    x: int,
    y: int,
)
    requires
        0 <= i < wins.len(),
        214 + 156 * i <= x < 220 + 156 * i,
        screen_h - 20 <= y < screen_h - 14,
        uncovered(wins, contents, focus, blink_on, x, y),
    ensures
        shows(desktop_s(screen_w, screen_h, wins, contents, focus, blink_on, max_terms), x, y)
            == Some(
            if i == focus {
                wins[i].accent
            } else {
                Color(0x3A4654)
            },
        ),
{
    let top = screen_h - 28;
    lemma_uncovered(screen_w, screen_h, wins, contents, focus, blink_on, max_terms, x, y);
    lemma_button_shows(wins, focus, top, wins.len() as int, i, x, y);
    let list = button_s(wins[i], i, i == focus, top);
    assert(list.len() == 4);
    assert forall|j: int| 2 < j < list.len() implies paint_of(#[trigger] list[j])(x, y) is None by {
        assert(j == 3);
    }
    lemma_last_shows(list, 2, x, y);
}

/// The bar takes the 28 rows at the bottom of the screen, across its whole width, and
/// begins with two bright rows.
#[verifier::spinoff_prover]
pub proof fn law_bar_is_at_the_bottom(
    screen_w: int,
    screen_h: int,
    wins: Seq<Window>,
    contents: Seq<Content>,
    focus: int,
    blink_on: bool,
    max_terms: nat,
    x: int,
    y: int,
)
    requires
        0 <= x < screen_w,
        screen_h - 28 <= y < screen_h - 26,
        uncovered(wins, contents, focus, blink_on, x, y),
    ensures
        shows(desktop_s(screen_w, screen_h, wins, contents, focus, blink_on, max_terms), x, y)
            == Some(Color(0x36C39B)),
{
    let top = screen_h - 28;
    let n = wins.len() as int;
    lemma_uncovered(screen_w, screen_h, wins, contents, focus, blink_on, max_terms, x, y);
    lemma_buttons_keep(wins, focus, top, n, x, y);
    let list = bar_s(screen_w, top, terminals_s(wins, n) < max_terms);
    assert(list.len() == 7);
    assert forall|j: int| 1 < j < list.len() implies paint_of(#[trigger] list[j])(x, y) is None by {
        assert(j == 2 || j == 3 || j == 4 || j == 5 || j == 6);
    }
    lemma_last_shows(list, 1, x, y);
}

/// The button for a new terminal is pressed exactly where it is drawn.
pub proof fn law_new_terminal_button_is_where_it_is_drawn(
    screen_w: int,
    screen_h: i32,
    can_open: bool,
    px: i32,
    py: i32,
)
    requires
        28 <= screen_h,
    ensures
        inside(new_term_s(screen_h), px, py) <==> paint_of(
            bar_s(screen_w, screen_h - 28, can_open)[4],
        )(px as int, py as int) is Some,
        inside(new_term_s(screen_h), px, py) <==> within(
            px as int,
            py as int,
            96,
            screen_h - 24,
            104,
            20,
        ),
{
    let list = bar_s(screen_w, screen_h - 28, can_open);
    assert(list[4] == (DrawView::Rect {
        x: 96,
        y: screen_h - 24,
        w: 104,
        h: 20,
        color: Color(super::desktop::C_TASKBAR_HI),
    }));
}

} // verus!
