use pickleos::driver::console::{has_input, inject_char, read_char, ConsoleInput};
use pickleos::driver::mouse::MouseState;
use pickleos::framebuffer::console::Console;
use pickleos::framebuffer::list::Draw;
use pickleos::framebuffer::{Color, FrameBuffer, FrameBufferInfo, PixelFormat};
use pickleos::gui::compositor::{blink, note_changes, repaint, ClientEvent, Effect, Repaint, Scene};
use pickleos::gui::cursor::{draw_cursor, CursorSaver};
use pickleos::gui::demo::{demo_frame, first_windows, DEMO_W};
use pickleos::gui::desktop::{
    client_window_count, draw_desktop, free_terminal_slots, new_term_button_rect, point_in_new_term,
    terminal_window_count, TASKBAR_H,
};
use pickleos::gui::frame::Compositor;
use pickleos::gui::window::{Content, Window, WindowKind, TITLE_H};

fn info(width: usize, height: usize, pixel_format: PixelFormat) -> FrameBufferInfo {
    FrameBufferInfo {
        width,
        height,
        stride: width + 2,
        bytes_per_pixel: 4,
        byte_len: (width + 2) * height * 4,
        pixel_format,
    }
}

fn screen(width: usize, height: usize) -> FrameBuffer {
    let i = info(width, height, PixelFormat::Bgr);
    FrameBuffer::new(i, vec![0; i.byte_len])
}

#[test]
fn colours_are_packed() {
    let c = Color::rgb(1, 2, 3);
    assert_eq!(c, Color(0x010203));
    assert_eq!((c.r(), c.g(), c.b()), (1, 2, 3));
}

#[test]
fn pixels_are_stored_by_format() {
    let mut fb = screen(10, 4);
    fb.put_pixel(3, 1, Color(0x112233));
    let at = (12 + 3) * 4;
    assert_eq!(&fb.bytes()[at..at + 4], &[0x33, 0x22, 0x11, 0]);
    assert_eq!(fb.read_pixel(3, 1), Color(0x112233));
    let before = fb.bytes().to_vec();
    fb.put_pixel(10, 0, Color(Color::RED));
    fb.put_pixel(0, 4, Color(Color::RED));
    assert_eq!(fb.bytes(), &before[..]);
    let i = info(4, 4, PixelFormat::Rgb);
    let mut rgb = FrameBuffer::new(i, vec![0; i.byte_len]);
    rgb.put_pixel(0, 0, Color(0x112233));
    assert_eq!(&rgb.bytes()[..3], &[0x11, 0x22, 0x33]);
    let g = info(4, 4, PixelFormat::U8);
    let mut gray = FrameBuffer::new(g, vec![0; g.byte_len]);
    gray.put_pixel(0, 0, Color(Color::WHITE));
    assert_eq!(gray.bytes()[0], 255);
    assert_eq!((fb.width(), fb.height(), fb.info().stride), (10, 4, 12));
}

#[test]
fn rectangles_are_clipped() {
    let mut fb = screen(8, 8);
    fb.clear(Color(Color::BLUE));
    fb.fill_rect(6, 6, 10, 10, Color(Color::RED));
    fb.draw_rect_outline(0, 0, 4, 3, Color(Color::GREEN));
    assert_eq!(fb.read_pixel(7, 7), Color(Color::RED));
    assert_eq!(fb.read_pixel(5, 6), Color(Color::BLUE));
    assert_eq!(fb.read_pixel(3, 2), Color(Color::GREEN));
    assert_eq!(fb.read_pixel(1, 1), Color(Color::BLUE));
}

#[test]
fn glyphs_come_from_the_font() {
    let mut fb = screen(24, 8);
    fb.draw_glyph('A', 0, 0, Color(Color::WHITE), Color(Color::BLUE));
    let rows = font8x8::legacy::BASIC_LEGACY[65];
    for y in 0..8 {
        for x in 0..8 {
            let lit = rows[y] & (1 << x) != 0;
            let want = if lit { Color::WHITE } else { Color::BLUE };
            assert_eq!(fb.read_pixel(x, y), Color(want));
        }
    }
    let mut other = screen(24, 8);
    other.draw_string("AB", 0, 0, Color(Color::WHITE), Color(Color::BLUE));
    assert_eq!(other.read_pixel(2, 0), fb.read_pixel(2, 0));
    other.draw_string_fg("A", 16, 0, Color(Color::RED));
    let mut big = screen(24, 16);
    big.draw_string_scaled("A", 0, 0, Color(Color::WHITE), 2);
    for y in 0..16 {
        for x in 0..16 {
            let lit = rows[y / 2] & (1 << (x / 2)) != 0;
            assert_eq!(big.read_pixel(x, y) == Color(Color::WHITE), lit);
        }
    }
}

#[test]
fn draw_lists_are_painted_in_order() {
    let mut fb = screen(16, 8);
    fb.draw_all(&vec![
        Draw::Clear { color: Color(Color::GRAY) },
        Draw::Rect { x: 0, y: 0, w: 8, h: 8, color: Color(Color::RED) },
        Draw::Pixel { x: 2, y: 2, color: Color(Color::GREEN) },
        Draw::Outline { x: 8, y: 0, w: 8, h: 8, color: Color(Color::BLUE) },
    ]);
    assert_eq!(fb.read_pixel(0, 0), Color(Color::RED));
    assert_eq!(fb.read_pixel(2, 2), Color(Color::GREEN));
    assert_eq!(fb.read_pixel(8, 0), Color(Color::BLUE));
    assert_eq!(fb.read_pixel(10, 3), Color(Color::GRAY));
}

#[test]
fn the_console_wraps_and_scrolls() {
    let mut fb = screen(24, 16);
    let mut k = Console::init(&fb.info());
    assert_eq!((k.cols, k.rows), (3, 2));
    assert!(k.console_active());
    k.set_console_colors(Color(Color::WHITE), Color(Color::BLACK));
    k.console_write_str(&mut fb, "abc");
    assert_eq!((k.col, k.row), (0, 1));
    let mut want = screen(24, 16);
    want.draw_string("d", 0, 0, Color(Color::WHITE), Color(Color::BLACK));
    k.console_write_str(&mut fb, "d\n");
    assert_eq!((k.col, k.row), (0, 1));
    for x in 0..24 {
        for y in 0..16 {
            assert_eq!(fb.read_pixel(x, y), want.read_pixel(x, y));
        }
    }
    k.suspend_console(true);
    assert!(k.console_suspended());
}

#[test]
fn the_boot_pattern_covers_the_screen() {
    let mut fb = screen(320, 200);
    fb.draw_boot_test_pattern();
    let first = fb.read_pixel(0, 0);
    let mut colours = 0;
    for x in 0..320 {
        for y in 0..200 {
            if fb.read_pixel(x, y) != first {
                colours += 1;
            }
        }
    }
    assert!(colours > 1000);
}

#[test]
fn the_cursor_leaves_no_trace() {
    let mut fb = screen(40, 40);
    fb.fill_rect(0, 0, 30, 30, Color(0x123456));
    let before = fb.bytes().to_vec();
    let mut s = CursorSaver::new();
    for (x, y) in [(5, 5), (-4, -7), (35, 36)] {
        s.save(&fb, x, y);
        draw_cursor(&mut fb, x, y);
        assert_ne!(fb.bytes(), &before[..]);
        s.restore(&mut fb);
        assert_eq!(fb.bytes(), &before[..]);
    }
    draw_cursor(&mut fb, 5, 5);
    assert_eq!(fb.read_pixel(5, 5), Color(Color::BLACK));
    assert_eq!(fb.read_pixel(6, 7), Color(Color::WHITE));
}

#[test]
fn windows_have_their_parts() {
    let w = Window::new(10, 20, 200, 100, "w", Vec::new(), Color(0));
    assert!(w.point_in_title(11, 21));
    assert!(!w.point_in_title(11, 20 + TITLE_H));
    assert!(w.point_in_window(209, 119));
    assert!(!w.point_in_window(210, 119));
    let (x, y, cw, ch) = w.close_rect();
    assert!(w.point_in_close(x, y) && w.point_in_close(x + cw - 1, y + ch - 1));
    assert!(w.point_in_title(x, y));
    let c = Window::new_client(0, 0, 64, 48, "c", Color(0), 9);
    assert_eq!(c.client_area(), (0, TITLE_H, 64, 48));
    assert_eq!(c.kind, WindowKind::Client { id: 9 });
}

fn at(s: &Scene, title: &str) -> (i32, i32) {
    let w = s.windows.iter().find(|w| w.title == title).unwrap();
    (w.x, w.y)
}

#[test]
fn clicks_raise_and_drag() {
    let mut s = Scene::new(first_windows());
    // The windows do not overlap; a click on the title of the first raises it.
    let (effects, dirty) = s.mouse(1280, 800, 60, 125, true);
    assert!(dirty && effects.is_empty());
    assert_eq!(s.windows[1].title, "Welcome");
    s.mouse(1280, 800, 160, 225, true);
    assert_eq!(at(&s, "Welcome"), (140, 220));
    // Dragged far off, it stays on the screen.
    s.mouse(1280, 800, 1279, 0, true);
    let (x, y) = at(&s, "Welcome");
    assert!(x + 330 <= 1280 && y >= 0);
    s.mouse(1280, 800, 1279, 0, false);
    s.mouse(1280, 800, 10, 500, false);
    assert_eq!(at(&s, "Welcome"), (x, y));
    let (cx, cy, _, _) = s.windows[1].close_rect();
    s.mouse(1280, 800, cx + 1, cy + 1, true);
    assert_eq!(s.windows.len(), 1);
    assert_eq!(s.windows[0].title, "System");
}

#[test]
fn clients_are_placed_and_told() {
    let mut s = Scene::new(first_windows());
    let placed = s.add_client(1280, 800, 7, 160, 120, "demo");
    assert!(placed.iter().any(|e| matches!(e, Effect::Place { id: 7, .. })));
    assert_eq!(s.top_client(), Some(7));
    let mut console = ConsoleInput::new();
    inject_char(&mut console, 'x');
    let told = s.sync_client_focus(&mut console);
    assert!(!has_input(&console));
    assert!(told.contains(&Effect::Tell { id: 7, event: ClientEvent::Focus }));
    assert!(s.sync_client_focus(&mut console).is_empty());
    let (x, y, _, _) = s.windows[2].client_area();
    let moved = s.route_mouse(true, x + 3, y + 4, false);
    assert!(moved.contains(&Effect::Tell { id: 7, event: ClientEvent::MouseMove { x: 3, y: 4 } }));
    let down = s.route_mouse(true, x + 3, y + 4, true);
    assert!(down.contains(&Effect::Tell { id: 7, event: ClientEvent::MouseDown { x: 3, y: 4 } }));
    let up = s.route_mouse(true, x + 3, y + 4, false);
    assert!(up.contains(&Effect::Tell { id: 7, event: ClientEvent::MouseUp { x: 3, y: 4 } }));
    assert!(s.remove_client(7));
    assert!(!s.remove_client(7));
    assert_eq!(s.top_client(), None);
}

#[test]
fn terminals_are_opened_from_the_taskbar() {
    let mut s = Scene::new(first_windows());
    let (bx, by, bw, bh) = new_term_button_rect(800);
    assert!(point_in_new_term(bx, by, 800) && point_in_new_term(bx + bw - 1, by + bh - 1, 800));
    assert!(!point_in_new_term(bx - 1, by, 800));
    let (effects, _) = s.mouse(1280, 800, bx + 1, by + 1, true);
    assert!(effects.contains(&Effect::NewTerminal));
    s.open_terminal(1280, 800, 80, 25, 2);
    assert_eq!(s.focused_terminal(), Some(2));
    assert_eq!(terminal_window_count(&s.windows), 1);
    assert_eq!(client_window_count(&s.windows), 0);
    assert_eq!(free_terminal_slots(&s.windows, 4), 3);
}

#[test]
fn the_desktop_is_drawn() {
    let wins = first_windows();
    let contents = vec![Content::Body, Content::Body];
    let list = draw_desktop(320, 200, &wins, &contents, 1, true, 4);
    assert!(matches!(list[0], Draw::Clear { .. } | Draw::Rect { .. }));
    assert!(list.iter().any(|d| matches!(d, Draw::Text { text, .. } if text == "System")));
    assert_eq!(TASKBAR_H, 28);
}

#[test]
fn repainting_is_kept_small() {
    assert_eq!(repaint(true, 0, false, false, false, false), Repaint::All);
    assert_eq!(repaint(false, 1, true, true, false, false), Repaint::TopWindow);
    assert_eq!(repaint(false, 2, true, true, false, false), Repaint::All);
    assert_eq!(repaint(false, 0, false, true, true, false), Repaint::TopWindow);
    assert_eq!(repaint(false, 0, false, false, false, true), Repaint::Cursor);
    assert_eq!(repaint(false, 0, false, false, false, false), Repaint::Nothing);
    assert!(blink(0) && blink(8) && !blink(9) && blink(18));
    let mut last = vec![1, 2, 3];
    assert_eq!(note_changes(&mut last, &vec![1, 5, 3], Some(1)), (1, true));
    assert_eq!(last, vec![1, 5, 3]);
    assert_eq!(note_changes(&mut last, &vec![1, 5, 3], Some(1)), (0, false));
}

#[test]
fn the_demo_moves() {
    let f = demo_frame(3);
    assert_eq!(f.len(), 160 * 120);
    assert_eq!(f[DEMO_W * 2 + 5], ((5 + 3) << 16) | ((2 + 1) << 8) | 7);
    assert_ne!(f[0], demo_frame(4)[0]);
}

fn pointer_at(seq: u64, x: i32, y: i32, left: bool) -> MouseState {
    MouseState { x, y, left, right: false, middle: false, seq }
}

#[test]
fn a_quiet_frame_paints_nothing() {
    let mut console = ConsoleInput::new();
    let mut c = Compositor::new(1280, 800, 80, 25, 0, vec![5, 5], 3, pointer_at(0, 640, 400, false));
    assert_eq!(c.scene.windows.len(), 3);
    assert_eq!(c.scene.windows[2].kind, WindowKind::Terminal { term: 0 });
    let m = pointer_at(1, 640, 400, false);
    assert!(c.pointer(3, m).is_empty());
    assert_eq!(c.finish(&mut console, &vec![5, 5]).1, Repaint::Cursor);
    inject_char(&mut console, 'k');
    for frame in 2..=20 {
        assert!(c.pointer(3, m).is_empty());
        let (effects, paint) = c.finish(&mut console, &vec![5, 5]);
        assert!(effects.is_empty());
        let expected = if frame == 9 || frame == 18 { Repaint::TopWindow } else { Repaint::Nothing };
        assert_eq!(paint, expected);
    }
    assert_eq!(read_char(&mut console), Some('k'));
    c.pointer(3, m);
    assert_eq!(c.finish(&mut console, &vec![6, 5]).1, Repaint::TopWindow);
    c.pointer(3, m);
    assert_eq!(c.finish(&mut console, &vec![6, 6]).1, Repaint::All);
    c.pointer(4, m);
    assert_eq!(c.finish(&mut console, &vec![6, 6]).1, Repaint::All);
}

#[test]
fn the_window_on_top_has_the_keyboard() {
    let mut console = ConsoleInput::new();
    let mut c = Compositor::new(1280, 800, 80, 25, 0, vec![0], 0, pointer_at(0, 0, 0, false));
    let placed = c.created(7, 160, 120, "demo");
    assert_eq!(
        placed,
        vec![Effect::Place { id: 7, x: 360, y: 200 }, Effect::Tell { id: 7, event: ClientEvent::Focus }],
    );
    inject_char(&mut console, 'x');
    c.pointer(0, pointer_at(1, 0, 0, false));
    let (told, paint) = c.finish(&mut console, &vec![0]);
    assert_eq!(
        told,
        vec![Effect::FocusTerminal { on: None }, Effect::Tell { id: 7, event: ClientEvent::Focus }],
    );
    assert_eq!(paint, Repaint::All);
    inject_char(&mut console, 'a');
    inject_char(&mut console, 'b');
    c.pointer(0, pointer_at(2, 361, 202, true));
    assert_eq!(
        c.finish(&mut console, &vec![0]).0,
        vec![
            Effect::Tell { id: 7, event: ClientEvent::Key('a') },
            Effect::Tell { id: 7, event: ClientEvent::Key('b') },
            Effect::Tell { id: 7, event: ClientEvent::MouseMove { x: 1, y: 2 } },
            Effect::Tell { id: 7, event: ClientEvent::MouseDown { x: 1, y: 2 } },
        ],
    );
    c.destroyed(9);
    assert!(!c.dirty);
    c.destroyed(7);
    assert!(c.dirty);
    c.pointer(0, pointer_at(3, 0, 0, false));
    assert_eq!(c.finish(&mut console, &vec![0]).0, vec![Effect::FocusTerminal { on: Some(0) }]);
    c.terminal_opened(4);
    assert_eq!(c.scene.windows[3].x, 328);
    assert_eq!(c.scene.windows[3].y, 178);
    assert_eq!(c.finish(&mut console, &vec![0]).0, vec![Effect::FocusTerminal { on: Some(4) }]);
}

#[test]
fn wide_screens_have_wide_windows() {
    let mut s = Scene::new(first_windows());
    s.open_terminal(100_000, 60_000, 5_000, 2_000, 1);
    let w = s.windows.last().unwrap();
    assert_eq!((w.w, w.h), (40_016, 20_028));
    // It is dragged to the far corner by its title bar.
    let (x, y) = (w.x + 5, w.y + 5);
    s.mouse(100_000, 60_000, x, y, true);
    s.mouse(100_000, 60_000, 99_999, 59_999, true);
    let w = s.windows.last().unwrap();
    assert_eq!((w.x, w.y), (100_000 - 40_016, 60_000 - 20));
}
