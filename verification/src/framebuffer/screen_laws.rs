//! What can be seen of text and colours on the screen.

use super::console::{char_s, text_s, Console, ConsoleOp};
use super::draw::{
    glyph_fg_paint, glyph_paint, outline, scaled_paint, text_fg_paint, text_paint,
};
use super::pattern::{fitting, gradient, pattern, swatch_s};
use super::{
    block, encoded, info_ok, lemma_offset, luminance, painted, pixel, rgb_s, visible, Color,
    Paint, PixelFormat, ScreenView,
};
use crate::gui::cursor::{cursor_paint, read_s, sprite_s};
use vstd::prelude::*;

verus! {

/// A colour that was painted is what reads back from the pixel, and a pixel without paint
/// reads as before.
pub proof fn law_painted_pixels_read_back(
    v0: ScreenView,
    v1: ScreenView,
    p: Paint,
    x: int,
    y: int,
)
    requires
        painted(v0, v1, p),
        info_ok(v0.info),
        v0.bytes.len() == v0.info.byte_len,
        visible(v0.info, x, y),
        v0.info.pixel_format == PixelFormat::Rgb || v0.info.pixel_format == PixelFormat::Bgr,
        p(x, y) matches Some(c) ==> c.0 < 0x100_0000,
    ensures
        match p(x, y) {
            Some(c) => read_s(v1, x, y) == c,
            None => read_s(v1, x, y) == read_s(v0, x, y),
        },
{
    lemma_offset(v0.info, x, y);
    let at = super::offset(v0.info, x, y);
    let a = pixel(v0, x, y);
    let b = pixel(v1, x, y);
    assert(a[0] == v0.bytes[at] && a[1] == v0.bytes[at + 1] && a[2] == v0.bytes[at + 2]);
    assert(b[0] == v1.bytes[at] && b[1] == v1.bytes[at + 1] && b[2] == v1.bytes[at + 2]);
    if let Some(c) = p(x, y) {
        assert(c.0 == c.0 / 0x10000 * 0x10000 + c.0 / 0x100 % 0x100 * 0x100 + c.0 % 0x100);
        assert(rgb_s(c.red(), c.green(), c.blue()) == c);
    }
}

/// On a screen without colours, a gray is as bright as it says, and no colour is darker
/// than one that has less of each part.
pub proof fn law_brightness(c: Color, d: Color)
    requires
        c.red() <= d.red(),
        c.green() <= d.green(),
        c.blue() <= d.blue(),
    ensures
        luminance(c) <= luminance(d),
        c.red() == c.green() == c.blue() ==> luminance(c) == c.red(),
        encoded(PixelFormat::U8, c) == seq![luminance(c)],
{
}

/// The `i`th character of a text stands eight pixels to the right of the one before it, on
/// its background or without one, and nothing is painted beside the text.
pub proof fn law_text_is_its_characters(
    t: Seq<char>,
    px: int,
    py: int,
    fg: Color,
    bg: Color,
    i: int,
    x: int,
    y: int,
)
    requires
        0 <= i < t.len(),
        px + 8 * i <= x < px + 8 * i + 8,
    ensures
        text_paint(t, px, py, fg, bg)(x, y) == glyph_paint(t[i], px + 8 * i, py, fg, bg)(x, y),
        text_fg_paint(t, px, py, fg)(x, y) == glyph_fg_paint(t[i], px + 8 * i, py, fg)(x, y),
        forall|u: int, v: int|
            u < px || u >= px + 8 * t.len() || v < py || v >= py + 8 ==> (#[trigger] text_paint(
                t,
                px,
                py,
                fg,
                bg,
            )(u, v)) is None && text_fg_paint(t, px, py, fg)(u, v) is None,
        glyph_paint(t[i], px + 8 * i, py, fg, bg)(x, y) is Some <==> py <= y < py + 8,
        glyph_fg_paint(t[i], px + 8 * i, py, fg)(x, y) is Some ==> glyph_paint(
            t[i],
            px + 8 * i,
            py,
            fg,
            bg,
        )(x, y) == Some(fg),
{
    assert((x - px) / 8 == i && (x - px) % 8 == x - px - 8 * i);
}

/// In enlarged text each pixel of the text is a square.
pub proof fn law_enlarged_text_has_squares(
    t: Seq<char>,
    px: int,
    py: int,
    fg: Color,
    scale: int,
    u: int,
    v: int,
    x: int,
    y: int,
)
    requires
        scale > 0,
        px + scale * u <= x < px + scale * u + scale,
        py + scale * v <= y < py + scale * v + scale,
        0 <= u < 8 * t.len(),
        0 <= v < 8,
    ensures
        scaled_paint(t, px, py, fg, scale)(x, y) == text_fg_paint(t, 0, 0, fg)(u, v),
{
    lemma_square(x - px, scale, u);
    lemma_square(y - py, scale, v);
    assert(scale * u + scale <= 8 * t.len() * scale) by (nonlinear_arith)
        requires
            scale > 0,
            u + 1 <= 8 * t.len(),
    ;
    assert(scale * v + scale <= 8 * scale) by (nonlinear_arith)
        requires
            scale > 0,
            v + 1 <= 8,
    ;
    assert(scale * u >= 0 && scale * v >= 0) by (nonlinear_arith)
        requires
            scale > 0,
            u >= 0,
            v >= 0,
    ;
}

proof fn lemma_square(d: int, scale: int, q: int)
    requires
        scale > 0,
        scale * q <= d < scale * q + scale,
    ensures
        d / scale == q,
{
    assert(scale * q == q * scale) by (nonlinear_arith);
    vstd::arithmetic::div_mod::lemma_fundamental_div_mod_converse(d, scale, q, d - q * scale);
}

/// An outline leaves the inside of its rectangle alone and has every pixel of its rim.
pub proof fn law_outline_is_the_rim(px: int, py: int, w: int, h: int, c: Color, x: int, y: int)
    ensures
        outline(px, py, w, h, c)(x, y) is Some <==> block(px, py, w, h, c)(x, y) is Some && block(
            px + 1,
            py + 1,
            w - 2,
            h - 2,
            c,
        )(x, y) is None,
        outline(px, py, w, h, c)(x, y) matches Some(d) ==> d == c,
{
}

/// How many cells come before the place of the next character, line by line.
pub open spec fn place(k: Console) -> int {
    k.row * k.cols + k.col
}

/// A character that is shown.
pub open spec fn shown(c: char) -> bool {
    c != '\n' && c != '\r' && c != '\t' && c != '\x08'
}

/// Text that fits on the screen fills the cells one after the other, from left to right and
/// from the top down, beginning where the text before it ended.
pub proof fn law_console_fills_its_cells(k: Console, t: Seq<char>)
    requires
        k.col < k.cols,
        k.row < k.rows,
        place(k) + t.len() < k.cols * k.rows,
        k.cols * k.rows <= usize::MAX,
        forall|i: int| 0 <= i < t.len() ==> shown(#[trigger] t[i]),
    ensures
        ({
            let (k1, ops) = text_s(k, t);
            &&& k1.col < k1.cols && k1.row < k1.rows
            &&& (k1.cols, k1.rows) == (k.cols, k.rows)
            &&& place(k1) == place(k) + t.len()
            &&& ops.len() == t.len()
            &&& forall|i: int|
                0 <= i < t.len() ==> #[trigger] ops[i] == (ConsoleOp::Cell {
                    c: t[i],
                    col: (place(k) + i) % (k.cols as int),
                    row: (place(k) + i) / (k.cols as int),
                })
        }),
    decreases t.len(),
{
    if t.len() > 0 {
        let before = t.drop_last();
        assert forall|i: int| 0 <= i < before.len() implies shown(#[trigger] before[i]) by {
            assert(before[i] == t[i]);
        }
        law_console_fills_its_cells(k, before);
        let (k1, ops1) = text_s(k, before);
        let (k2, ops2) = char_s(k1, t.last());
        let cols = k.cols as int;
        let at = place(k1);
        assert(shown(t[t.len() - 1]));
        assert(cols * k1.row == k1.row * cols) by (nonlinear_arith);
        vstd::arithmetic::div_mod::lemma_fundamental_div_mod_converse(
            at,
            cols,
            k1.row as int,
            k1.col as int,
        );
        let cell = ConsoleOp::Cell { c: t.last(), col: k1.col as int, row: k1.row as int };
        assert(t.last() == t[t.len() - 1]);
        lemma_cell(k1, t.last());
        assert(ops2.len() >= 1 && ops2[0] == cell);
        assert(at / cols == k1.row && at % cols == k1.col);
        assert((k1.row + 1) * cols == k1.row * cols + cols) by (nonlinear_arith);
        if k1.col + 1 == cols {
            if k1.row + 1 == k.rows {
                assert(k1.row * cols + cols == cols * k.rows) by (nonlinear_arith)
                    requires
                        k1.row + 1 == k.rows,
                ;
            }
        }
        assert(place(k2) == at + 1);
        assert forall|i: int| 0 <= i < t.len() implies #[trigger] text_s(k, t).1[i] == (
        ConsoleOp::Cell { c: t[i], col: (place(k) + i) % cols, row: (place(k) + i) / cols }) by {
            if i < before.len() {
                assert((ops1 + ops2)[i] == ops1[i]);
                assert(before[i] == t[i]);
            }
        }
    }
}

/// A character that is shown goes into the cell at its place.
proof fn lemma_cell(k: Console, c: char)
    requires
        shown(c),
    ensures
        char_s(k, c).1.len() >= 1,
        char_s(k, c).1[0] == (ConsoleOp::Cell { c, col: k.col as int, row: k.row as int }),
        k.col < k.cols && k.row < k.rows && !(k.col + 1 == k.cols && k.row + 1 == k.rows) ==> char_s(
            k,
            c,
        ).1.len() == 1,
{
}

/// A new line begins at the left edge of the next line, or of the last one when everything
/// moved up; a carriage return goes to the left edge; a tab goes to the next column that is
/// a multiple of four; and a backspace clears the cell to the left and goes there.
pub proof fn law_console_obeys_control_characters(k: Console)
    requires
        k.col < k.cols,
        k.row < k.rows,
        k.cols + 8 <= usize::MAX,
        k.rows + 8 <= usize::MAX,
    ensures
        ({
            let (n, ops) = char_s(k, '\n');
            &&& n.col == 0
            &&& k.row + 1 < k.rows ==> n.row == k.row + 1 && ops.len() == 0
            &&& k.row + 1 == k.rows ==> n.row == k.row && ops == seq![ConsoleOp::Scroll]
        }),
        ({
            let (n, ops) = char_s(k, '\r');
            n.col == 0 && n.row == k.row && ops.len() == 0
        }),
        ({
            let (n, ops) = char_s(k, '\t');
            k.col + 4 < k.cols ==> n.col % 4 == 0 && k.col < n.col <= k.col + 4 && n.row == k.row
                && ops.len() == 0
        }),
        ({
            let (n, ops) = char_s(k, '\x08');
            if k.col > 0 {
                n.col == k.col - 1 && n.row == k.row && ops == seq![
                    ConsoleOp::Cell { c: ' ', col: k.col - 1, row: k.row as int },
                ]
            } else {
                n == k && ops.len() == 0
            }
        }),
{
    assert(Seq::<ConsoleOp>::empty().push(ConsoleOp::Scroll) =~= seq![ConsoleOp::Scroll]);
}

/// A character that is shown and taken back leaves the place as it was and the cell blank.
pub proof fn law_backspace_takes_a_character_back(k: Console, c: char)
    requires
        k.col + 1 < k.cols,
        k.row < k.rows,
        k.cols + 8 <= usize::MAX,
        k.rows + 8 <= usize::MAX,
        shown(c),
    ensures
        ({
            let (k1, ops1) = char_s(k, c);
            let (k2, ops2) = char_s(k1, '\x08');
            &&& k2 == k
            &&& ops1 == seq![ConsoleOp::Cell { c, col: k.col as int, row: k.row as int }]
            &&& ops2 == seq![ConsoleOp::Cell { c: ' ', col: k.col as int, row: k.row as int }]
        }),
{
}

/// The swatches go round the colours: red, orange, yellow, green, cyan, blue, magenta and
/// white, each in a white frame of 60 pixels, 72 pixels apart.
pub proof fn law_swatches_show_the_colours(w: int, h: int, i: int, x: int, y: int)
    requires
        0 <= i < 8,
        100 + 72 * i <= w,
        40 + 72 * i <= x < 100 + 72 * i,
        60 <= y < 120,
    ensures
        pattern(w, h)(x, y) == (if 40 + 72 * i < x < 99 + 72 * i && 60 < y < 119 {
            Some(
                Color(
                    seq![
                        0xFF0000u32,
                        0xFF8800,
                        0xFFFF00,
                        0x00FF00,
                        0x00FFFF,
                        0x0000FF,
                        0xFF00FF,
                        0xFFFFFF,
                    ][i],
                ),
            )
        } else {
            Some(Color(0xFFFFFFu32))
        }),
{
    assert((x - 40) / 72 == i && (x - 40) % 72 == x - 40 - 72 * i);
    let s = seq![
        0xFF0000u32,
        0xFF8800,
        0xFFFF00,
        0x00FF00,
        0x00FFFF,
        0x0000FF,
        0xFF00FF,
        0xFFFFFF,
    ];
    assert(s[0] == 0xFF0000 && s[1] == 0xFF8800 && s[2] == 0xFFFF00 && s[3] == 0x00FF00 && s[4]
        == 0x00FFFF && s[5] == 0x0000FF && s[6] == 0xFF00FF && s[7] == 0xFFFFFF);
    assert(swatch_s(i) == Color(s[i]));
    assert(fitting(w) > i);
}

/// The gradient begins with pure red. From left to right red only falls and blue only
/// rises, no place is red and blue at once, and the parts always make up one full colour.
pub proof fn law_gradient_runs_from_red_to_blue(x: int, z: int, w: int)
    requires
        0 <= x <= z < w,
    ensures
        gradient(0, w) == Color(0xFF0000),
        gradient(x, w).red() >= gradient(z, w).red(),
        gradient(x, w).blue() <= gradient(z, w).blue(),
        gradient(x, w).red() + gradient(x, w).green() + gradient(x, w).blue() == 255,
        gradient(x, w).red() == 0 || gradient(x, w).blue() == 0,
        256 * x < 128 * w ==> gradient(x, w).blue() == 0,
        255 * x >= 128 * w ==> gradient(x, w).red() == 0,
{
    lemma_gradient(x, w);
    lemma_gradient(z, w);
    lemma_gradient(0, w);
    let t = x * 255 / w;
    let u = z * 255 / w;
    assert(t <= u) by {
        vstd::arithmetic::div_mod::lemma_div_is_ordered(x * 255, z * 255, w);
    }
    assert(0int * 255 / w == 0) by {
        vstd::arithmetic::div_mod::lemma_div_basics(w);
    }
    if 256 * x < 128 * w {
        assert(t < 128) by {
            vstd::arithmetic::div_mod::lemma_fundamental_div_mod(x * 255, w);
            assert(w * t < 128 * w);
            assert(t < 128) by (nonlinear_arith)
                requires
                    w * t < 128 * w,
                    w > 0,
            ;
        }
    }
    if 255 * x >= 128 * w {
        assert(t >= 128) by {
            vstd::arithmetic::div_mod::lemma_fundamental_div_mod(x * 255, w);
            assert(w * t > 127 * w);
            assert(t > 127) by (nonlinear_arith)
                requires
                    w * t > 127 * w,
                    w > 0,
            ;
        }
    }
}

#[verifier::spinoff_prover]
#[verifier::rlimit(30)]
proof fn lemma_gradient(x: int, w: int)
    requires
        0 <= x < w,
    ensures
        ({
            let t = x * 255 / w;
            let g = gradient(x, w);
            &&& 0 <= t < 255
            &&& t < 128 ==> g.red() == 255 - 2 * t && g.green() == 2 * t && g.blue() == 0
            &&& t >= 128 ==> g.red() == 0 && g.green() == 255 - 2 * (t - 128) && g.blue() == 2 * (t
                - 128)
        }),
{
    let t = x * 255 / w;
    vstd::arithmetic::div_mod::lemma_fundamental_div_mod(x * 255, w);
    vstd::arithmetic::div_mod::lemma_div_pos_is_pos(x * 255, w);
    assert(w * t < 255 * w);
    assert(t < 255) by (nonlinear_arith)
        requires
            w * t < 255 * w,
            w > 0,
    ;
}

/// The pointer is an arrow whose tip is the place that it points at: its left edge goes
/// straight down and its right edge goes down to the right, both in black, with white
/// between them and nothing to the right of it.
pub proof fn law_pointer_is_an_arrow(cx: int, cy: int, d: int, e: int)
    requires
        0 <= d < 10,
        0 <= e < 12,
    ensures
        cursor_paint(cx, cy)(cx + e, cy + d) == (if e == 0 || e == d {
            Some(Color(0u32))
        } else if e < d {
            Some(Color(0xFFFFFFu32))
        } else {
            None
        }),
        cursor_paint(cx, cy)(cx - 1, cy + d) is None,
        cursor_paint(cx, cy)(cx + e, cy - 1) is None,
{
    reveal_strlit("#           ");
    reveal_strlit("##          ");
    reveal_strlit("#.#         ");
    reveal_strlit("#..#        ");
    reveal_strlit("#...#       ");
    reveal_strlit("#....#      ");
    reveal_strlit("#.....#     ");
    reveal_strlit("#......#    ");
    reveal_strlit("#.......#   ");
    reveal_strlit("#........#  ");
    let r = sprite_s(d);
    assert(r.len() == 12);
    assert(r[0] == '#' && r[d] == '#');
    assert(e != 0 && e < d ==> r[e] == '.');
    assert(e > d ==> r[e] == ' ');
}

} // verus!
