//! The windows that the desktop begins with, and the picture of the demo program.

use super::desktop::C_ACCENT;
use super::window::{Window, WindowKind, MAX_TEXT};
use crate::framebuffer::Color;
use crate::text::contents;
use vstd::prelude::*;

verus! {

/// Width of the demo program's window.
pub const DEMO_W: usize = 160;

/// Height of the demo program's window.
pub const DEMO_H: usize = 120;

/// The lines of the window that welcomes the user.
pub open spec fn welcome_s() -> Seq<Seq<char>> {
    seq![
        "Welcome to the PICKLE OS desktop!"@,
        ""@,
        "This window manager runs as a kernel"@,
        "task and composites directly to the"@,
        "linear framebuffer."@,
        ""@,
        "Drag a title bar to move a window."@,
        "Click a window to focus it; [x] closes."@,
        "Hit [+ Terminal] for another shell."@,
    ]
}

/// The lines of the window about the system.
pub open spec fn system_s() -> Seq<Seq<char>> {
    seq![
        "kernel   : PICKLE OS v0.1.0"@,
        "arch     : x86_64 (long mode)"@,
        "bootinfo : bootloader 0.11"@,
        "display  : linear framebuffer"@,
        "input    : PS/2 mouse (IRQ12)"@,
        "          + PS/2 keyboard (IRQ1)"@,
    ]
}

/// The windows that the desktop begins with: one that welcomes the user, and one
/// about the system.
pub open spec fn first_windows_s(r: Seq<Window>) -> bool {
    &&& r.len() == 2
    &&& r[0].x == 40 && r[0].y == 120 && r[0].w == 330 && r[0].h == 180
    &&& r[0].title@ == "Welcome"@
    &&& contents(r[0].body@) == welcome_s()
    &&& r[0].accent == Color(C_ACCENT)
    &&& r[0].kind == WindowKind::Info
    &&& r[1].x == 880 && r[1].y == 130 && r[1].w == 320 && r[1].h == 160
    &&& r[1].title@ == "System"@
    &&& contents(r[1].body@) == system_s()
    &&& r[1].accent == Color(0x6CB02A)
    &&& r[1].kind == WindowKind::Info
}

/// The windows that the desktop begins with.
pub fn first_windows() -> (r: Vec<Window>)
    ensures
        first_windows_s(r@),
        forall|i: int| 0 <= i < r@.len() ==> (#[trigger] r@[i]).wf(),
{
    let mut a: Vec<String> = Vec::new();
    a.push("Welcome to the PICKLE OS desktop!".to_owned());
    a.push("".to_owned());
    a.push("This window manager runs as a kernel".to_owned());
    a.push("task and composites directly to the".to_owned());
    a.push("linear framebuffer.".to_owned());
    a.push("".to_owned());
    a.push("Drag a title bar to move a window.".to_owned());
    a.push("Click a window to focus it; [x] closes.".to_owned());
    a.push("Hit [+ Terminal] for another shell.".to_owned());
    assert(contents(a@) =~= welcome_s());
    let mut b: Vec<String> = Vec::new();
    b.push("kernel   : PICKLE OS v0.1.0".to_owned());
    b.push("arch     : x86_64 (long mode)".to_owned());
    b.push("bootinfo : bootloader 0.11".to_owned());
    b.push("display  : linear framebuffer".to_owned());
    b.push("input    : PS/2 mouse (IRQ12)".to_owned());
    b.push("          + PS/2 keyboard (IRQ1)".to_owned());
    assert(contents(b@) =~= system_s());
    let mut r: Vec<Window> = Vec::new();
    r.push(Window::new(40, 120, 330, 180, "Welcome", a, Color(C_ACCENT)));
    r.push(Window::new(880, 130, 320, 160, "System", b, Color(0x6CB02A)));
    proof {
        reveal_strlit("Welcome");
        reveal_strlit("System");
        reveal_strlit("Welcome to the PICKLE OS desktop!");
        reveal_strlit("");
        reveal_strlit("This window manager runs as a kernel");
        reveal_strlit("task and composites directly to the");
        reveal_strlit("linear framebuffer.");
        reveal_strlit("Drag a title bar to move a window.");
        reveal_strlit("Click a window to focus it; [x] closes.");
        reveal_strlit("Hit [+ Terminal] for another shell.");
        reveal_strlit("kernel   : PICKLE OS v0.1.0");
        reveal_strlit("arch     : x86_64 (long mode)");
        reveal_strlit("bootinfo : bootloader 0.11");
        reveal_strlit("display  : linear framebuffer");
        reveal_strlit("input    : PS/2 mouse (IRQ12)");
        reveal_strlit("          + PS/2 keyboard (IRQ1)");
        assert forall|i: int, j: int| 0 <= i < 2 && 0 <= j < r@[i].body@.len() implies (
        #[trigger] r@[i].body@[j])@.len() <= MAX_TEXT by {
            assert(r@[i].body@[j]@ == contents(r@[i].body@)[j]);
        }
    }
    r
}

/// A pixel of the demo program's picture at a time: a gradient that moves.
pub open spec fn demo_pixel(x: int, y: int, t: int) -> u32 {
    ((x + t) % 256 * 0x10000 + (y + t / 2) % 256 * 0x100 + (x + y) % 256) as u32
}

/// The last eight bits of a sum.
fn low_byte(a: u32, b: u32) -> (r: u32)
    requires
        a < 0x1000,
    ensures
        r == (a as int + b as int) % 256,
        r < 256,
{
    (a + b % 256) % 256
}

/// A pixel of the demo program's picture at a time.
fn demo_color(x: u32, y: u32, t: u32) -> (r: u32)
    requires
        x < 0x1000,
        y < 0x1000,
    ensures
        r == demo_pixel(x as int, y as int, t as int),
{
    let red: u32 = low_byte(x, t);
    let green: u32 = low_byte(y, t / 2);
    let blue: u32 = low_byte(x, y);
    red * 0x10000 + green * 0x100 + blue
}

/// The demo program's picture at a time, row by row.
pub fn demo_frame(t: u32) -> (r: Vec<u32>)
    ensures
        r@ == Seq::new(
            19200,
            |k: int| demo_pixel(k % (DEMO_W as int), k / (DEMO_W as int), t as int),
        ),
{
    let ghost all = Seq::new(
        19200,
        |k: int| demo_pixel(k % (DEMO_W as int), k / (DEMO_W as int), t as int),
    );
    let mut r: Vec<u32> = Vec::new();
    let mut k: usize = 0;
    while k < DEMO_W * DEMO_H
        invariant
            k <= 19200,
            all == Seq::new(
                19200,
                |k: int| demo_pixel(k % (DEMO_W as int), k / (DEMO_W as int), t as int),
            ),
            r@ == all.take(k as int),
        decreases 19200 - k,
    {
        let x: u32 = (k % DEMO_W) as u32;
        let y: u32 = (k / DEMO_W) as u32;
        r.push(demo_color(x, y, t));
        k = k + 1;
        assert(r@ =~= all.take(k as int));
    }
    assert(all.take(19200) =~= all);
    r
}

} // verus!
