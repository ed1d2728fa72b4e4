//! What the mouse does to windows.

use super::compositor::{hit_s, mouse_s, routed_s, top_client_s, ClientEvent, Effect, SceneView};
use super::picture_laws::{in_window, within};
use super::window::{Window, LIMIT};
use vstd::prelude::*;

verus! {

/// Nothing is dragged, and the button is up.
pub open spec fn at_rest(v: SceneView) -> bool {
    v.dragging is None && !v.prev_left
}

/// A point is in the close button of a window: a square of 14 pixels, 18 from the right
/// edge and 3 from the upper one.
pub open spec fn on_close(w: Window, px: i32, py: i32) -> bool {
    within(px as int, py as int, w.x + w.w - 18, w.y + 3, 14, 14)
}

/// A point is in the button for a new terminal.
pub open spec fn on_new_terminal(screen_h: i32, px: i32, py: i32) -> bool {
    within(px as int, py as int, 96, screen_h - 24, 104, 20)
}

/// Coordinates are within their limit.
pub open spec fn in_limits(v: SceneView) -> bool {
    forall|i: int| 0 <= i < v.windows.len() ==> (#[trigger] v.windows[i]).wf()
}

/// A window that is taken by its title bar goes where the pointer goes, by as much, as
/// long as that is on the screen; it is in front then, and no other window moves. It
/// stays where it is once the button is up.
#[verifier::spinoff_prover]
#[verifier::rlimit(60)]
pub proof fn law_windows_follow_the_pointer(
    v: SceneView,
    screen_w: int,
    screen_h: i32,
    px: i32,
    py: i32,
    qx: i32,
    qy: i32,
    rx: i32,
    ry: i32,
    i: int,
)
    requires
        at_rest(v),
        in_limits(v),
        0 <= screen_w <= LIMIT && 0 <= screen_h <= LIMIT,
        0 <= px <= LIMIT && 0 <= py <= LIMIT && 0 <= qx <= LIMIT && 0 <= qy <= LIMIT,
        !on_new_terminal(screen_h, px, py),
        hit_s(v.windows, v.windows.len() as int, px, py) == Some(i),
        0 <= i < v.windows.len(),
        !on_close(v.windows[i], px, py),
        py < v.windows[i].y + 20,
        in_window(v.windows[i], px as int, py as int),
        0 <= v.windows[i].x + (qx - px) <= screen_w - v.windows[i].w,
        0 <= v.windows[i].y + (qy - py) <= screen_h - 20,
    ensures
        ({
            let w = v.windows[i];
            let n = v.windows.len();
            let (v1, e1, d1) = mouse_s(v, screen_w, screen_h, px, py, true);
            let (v2, e2, d2) = mouse_s(v1, screen_w, screen_h, qx, qy, true);
            let (v3, e3, d3) = mouse_s(v2, screen_w, screen_h, qx, qy, false);
            let (v4, e4, d4) = mouse_s(v3, screen_w, screen_h, rx, ry, false);
            let moved = Window {
                x: (w.x + (qx - px)) as i32,
                y: (w.y + (qy - py)) as i32,
                ..w
            };
            &&& v1.windows == v.windows.remove(i).push(w) && v1.focus == n - 1
            &&& v2.windows == v.windows.remove(i).push(moved) && v2.focus == n - 1
            &&& v3.windows == v2.windows && v4.windows == v2.windows
        }),
{
    let w = v.windows[i];
    let (v1, e1, d1) = mouse_s(v, screen_w, screen_h, px, py, true);
    let (v2, e2, d2) = mouse_s(v1, screen_w, screen_h, qx, qy, true);
    let moved = Window { x: (w.x + (qx - px)) as i32, y: (w.y + (qy - py)) as i32, ..w };
    assert(w.wf());
    assert(v2.windows =~= v.windows.remove(i).push(moved));
}

/// A click on the close button of the window that it hits takes that window away and no
/// other; a program is told before its window is destroyed.
pub proof fn law_close_button_closes(
    v: SceneView,
    screen_w: int,
    screen_h: i32,
    px: i32,
    py: i32,
    i: int,
)
    requires
        at_rest(v),
        in_limits(v),
        !on_new_terminal(screen_h, px, py),
        0 <= screen_h <= LIMIT,
        hit_s(v.windows, v.windows.len() as int, px, py) == Some(i),
        0 <= i < v.windows.len(),
        on_close(v.windows[i], px, py),
    ensures
        ({
            let (v1, e, dirty) = mouse_s(v, screen_w, screen_h, px, py, true);
            let w = v.windows[i];
            &&& dirty
            &&& v1.windows.len() == v.windows.len() - 1
            &&& forall|j: int|
                0 <= j < v.windows.len() && j != i ==> #[trigger] v.windows[j] == v1.windows[if j < i {
                    j
                } else {
                    j - 1
                }]
            &&& v1.windows.len() > 0 ==> v1.focus == v1.windows.len() - 1
            &&& w.kind is Client ==> e.len() == 2 && e[0] == (Effect::Tell {
                id: w.kind->id,
                event: ClientEvent::Close,
            }) && e[1] == (Effect::Destroy { id: w.kind->id })
            &&& w.kind is Terminal ==> e == seq![Effect::FreeTerminal { term: w.kind->term }]
            &&& w.kind is Info ==> e.len() == 0
        }),
{
    assert(v.windows[i].wf());
}

/// A click elsewhere in a window brings it to the front and focuses it; the others keep
/// their order. A click beside all windows does nothing, and one on the button for a new
/// terminal asks for one.
pub proof fn law_click_brings_to_the_front(
    v: SceneView,
    screen_w: int,
    screen_h: i32,
    px: i32,
    py: i32,
)
    requires
        at_rest(v),
        in_limits(v),
        0 <= screen_h <= LIMIT,
    ensures
        ({
            let n = v.windows.len();
            let (v1, e, dirty) = mouse_s(v, screen_w, screen_h, px, py, true);
            let hit = hit_s(v.windows, n as int, px, py);
            &&& on_new_terminal(screen_h, px, py) ==> e == seq![Effect::NewTerminal] && v1.windows
                == v.windows
            &&& !on_new_terminal(screen_h, px, py) && hit is None ==> e.len() == 0 && v1.windows
                == v.windows && !dirty
            &&& !on_new_terminal(screen_h, px, py) && hit is Some && 0 <= hit->Some_0 < n
                && !on_close(v.windows[hit->Some_0], px, py) ==> {
                &&& e.len() == 0 && dirty
                &&& v1.focus == n - 1
                &&& v1.windows == v.windows.remove(hit->Some_0).push(v.windows[hit->Some_0])
                &&& v1.dragging is Some <==> py < v.windows[hit->Some_0].y + 20 && in_window(
                    v.windows[hit->Some_0],
                    px as int,
                    py as int,
                )
            }
        }),
{
    let hit = hit_s(v.windows, v.windows.len() as int, px, py);
    if hit is Some && 0 <= hit->Some_0 < v.windows.len() {
        assert(v.windows[hit->Some_0].wf());
    }
}

/// A program whose window is in front is told of the mouse in coordinates of its own
/// area, and only while the mouse is there: of a press when the button goes down, and of
/// a release when it goes up.
pub proof fn law_programs_are_told_of_the_mouse(
    v: SceneView,
    px: i32,
    py: i32,
    left: bool,
    x: i32,
    y: i32,
)
    requires
        in_limits(v),
        0 <= px <= LIMIT && 0 <= py <= LIMIT,
        top_client_s(v) is Some,
        0 <= v.focus < v.windows.len(),
        x == px - v.windows[v.focus].x,
        y == py - v.windows[v.focus].y - 20,
    ensures
        ({
            let w = v.windows[v.focus];
            let id = top_client_s(v)->Some_0;
            let e = routed_s(v, true, px, py, left);
            let there = 0 <= x < w.w && 0 <= y < w.h - 20;
            &&& !there ==> e.len() == 0
            &&& there ==> e.len() > 0 && e[0] == (Effect::Tell {
                id,
                event: ClientEvent::MouseMove { x, y },
            })
            &&& there && left == v.prev_left_client ==> e.len() == 1
            &&& there && left && !v.prev_left_client ==> e.len() == 2 && e[1] == (Effect::Tell {
                id,
                event: ClientEvent::MouseDown { x, y },
            })
            &&& there && !left && v.prev_left_client ==> e.len() == 2 && e[1] == (Effect::Tell {
                id,
                event: ClientEvent::MouseUp { x, y },
            })
            &&& routed_s(v, false, px, py, left).len() == 0
        }),
{
    assert(v.windows[v.focus].wf());
}

} // verus!
