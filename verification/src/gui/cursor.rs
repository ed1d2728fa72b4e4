//! The mouse cursor, and the pixels under it.

use crate::framebuffer::{
    blank, dot, encoded, is_colour, info_ok, lemma_blank, lemma_repaint, lemma_same_paint, offset,
    painted, pixel, rgb_s, stored, visible, Color, FrameBuffer, Paint, PixelFormat, ScreenView,
};
use vstd::prelude::*;
use vstd::string::StrSliceExecFns;

verus! {

/// Width of the cursor.
pub const CURSOR_W: usize = 12;

/// Height of the cursor.
pub const CURSOR_H: usize = 19;

/// A row of the arrow: `#` is black, `.` is white, and a space is see-through.
pub open spec fn sprite_s(row: int) -> Seq<char> {
    if row == 0 {
        "#           "@
    } else if row == 1 {
        "##          "@
    } else if row == 2 {
        "#.#         "@
    } else if row == 3 {
        "#..#        "@
    } else if row == 4 {
        "#...#       "@
    } else if row == 5 {
        "#....#      "@
    } else if row == 6 {
        "#.....#     "@
    } else if row == 7 {
        "#......#    "@
    } else if row == 8 {
        "#.......#   "@
    } else if row == 9 {
        "#........#  "@
    } else if row == 10 {
        "#.....####  "@
    } else if row == 11 {
        "#..#..#     "@
    } else if row == 12 {
        "#.# #..#    "@
    } else if row == 13 {
        "##  #..#    "@
    } else if row == 14 {
        "#    #..#   "@
    } else if row == 15 {
        "     #..#   "@
    } else if row == 16 {
        "      #..#  "@
    } else if row == 17 {
        "      #..#  "@
    } else {
        "       ##   "@
    }
}

/// A row of the arrow.
fn sprite(row: usize) -> (r: &'static str)
    ensures
        r@ == sprite_s(row as int),
{
    if row == 0 {
        "#           "
    } else if row == 1 {
        "##          "
    } else if row == 2 {
        "#.#         "
    } else if row == 3 {
        "#..#        "
    } else if row == 4 {
        "#...#       "
    } else if row == 5 {
        "#....#      "
    } else if row == 6 {
        "#.....#     "
    } else if row == 7 {
        "#......#    "
    } else if row == 8 {
        "#.......#   "
    } else if row == 9 {
        "#........#  "
    } else if row == 10 {
        "#.....####  "
    } else if row == 11 {
        "#..#..#     "
    } else if row == 12 {
        "#.# #..#    "
    } else if row == 13 {
        "##  #..#    "
    } else if row == 14 {
        "#    #..#   "
    } else if row == 15 {
        "     #..#   "
    } else if row == 16 {
        "      #..#  "
    } else if row == 17 {
        "      #..#  "
    } else {
        "       ##   "
    }
}

/// The colour of a character of the arrow.
pub open spec fn ink(c: char) -> Option<Color> {
    if c == '#' {
        Some(Color(Color::BLACK))
    } else if c == '.' {
        Some(Color(Color::WHITE))
    } else {
        None
    }
}

/// The paint of the cursor.
pub open spec fn cursor_paint(cx: int, cy: int) -> Paint {
    |x: int, y: int|
        if 0 <= y - cy < CURSOR_H && 0 <= x - cx < sprite_s(y - cy).len() {
            ink(sprite_s(y - cy)[x - cx])
        } else {
            None
        }
}

/// The arrow is as large as it is said to be.
proof fn lemma_sprite(row: int)
    requires
        0 <= row < CURSOR_H,
    ensures
        sprite_s(row).len() == CURSOR_W,
{
    reveal_strlit("#           ");
    reveal_strlit("##          ");
    reveal_strlit("#.#         ");
    reveal_strlit("#..#        ");
    reveal_strlit("#...#       ");
    reveal_strlit("#....#      ");
    reveal_strlit("#.....#     ");
    reveal_strlit("#......#    ");
    reveal_strlit("#.......#   ");
    reveal_strlit("#........#  ");
    reveal_strlit("#.....####  ");
    reveal_strlit("#..#..#     ");
    reveal_strlit("#.# #..#    ");
    reveal_strlit("##  #..#    ");
    reveal_strlit("#    #..#   ");
    reveal_strlit("     #..#   ");
    reveal_strlit("      #..#  ");
    reveal_strlit("      #..#  ");
    reveal_strlit("       ##   ");
}

/// The first rows of the cursor, and the beginning of one more.
spec fn upto(p: Paint, cx: int, cy: int, row: int, col: int) -> Paint {
    |x: int, y: int|
        if y - cy < row || (y - cy == row && x - cx < col) {
            p(x, y)
        } else {
            None
        }
}

/// Draws the cursor.
pub fn draw_cursor(fb: &mut FrameBuffer, x: i32, y: i32)
    requires
        old(fb).wf(),
        x <= i32::MAX - 11,
        y <= i32::MAX - 18,
    ensures
        final(fb).wf(),
        painted(old(fb)@, final(fb)@, cursor_paint(x as int, y as int)),
{
    let ghost v0 = fb@;
    let ghost all = cursor_paint(x as int, y as int);
    let ghost (cx, cy) = (x as int, y as int);
    let mut row: usize = 0;
    proof {
        lemma_blank(v0);
        lemma_same_paint(v0, v0, blank(), upto(all, cx, cy, 0, 0));
    }
    while row < CURSOR_H
        invariant
            fb.wf(),
            fb@.info == v0.info,
            x <= i32::MAX - 11,
            y <= i32::MAX - 18,
            (cx, cy) == (x as int, y as int),
            all == cursor_paint(cx, cy),
            row <= CURSOR_H,
            painted(v0, fb@, upto(all, cx, cy, row as int, 0)),
        decreases CURSOR_H - row,
    {
        let line = sprite(row);
        proof {
            lemma_sprite(row as int);
        }
        let n: usize = line.unicode_len();
        let mut col: usize = 0;
        while col < n
            invariant
                fb.wf(),
                fb@.info == v0.info,
                x <= i32::MAX - 11,
                y <= i32::MAX - 18,
                (cx, cy) == (x as int, y as int),
                all == cursor_paint(cx, cy),
                row < CURSOR_H,
                line@ == sprite_s(row as int),
                n == line@.len() == CURSOR_W,
                col <= n,
                painted(v0, fb@, upto(all, cx, cy, row as int, col as int)),
            decreases n - col,
        {
            let c = line.get_char(col);
            let sx: i32 = x + col as i32;
            let sy: i32 = y + row as i32;
            let ghost v1 = fb@;
            let ghost p = upto(all, cx, cy, row as int, col as int);
            let ghost q = upto(all, cx, cy, row as int, col + 1);
            if sx >= 0 && sy >= 0 && (c == '#' || c == '.') {
                let color = if c == '#' {
                    Color(Color::BLACK)
                } else {
                    Color(Color::WHITE)
                };
                fb.put_pixel(sx as usize, sy as usize, color);
                proof {
                    lemma_repaint(v0, v1, fb@, p, dot(sx as int, sy as int, color), q);
                }
            } else {
                proof {
                    lemma_same_paint(v0, v1, p, q);
                }
            }
            col = col + 1;
        }
        proof {
            lemma_same_paint(
                v0,
                fb@,
                upto(all, cx, cy, row as int, n as int),
                upto(all, cx, cy, row + 1, 0),
            );
        }
        row = row + 1;
    }
    proof {
        lemma_same_paint(v0, fb@, upto(all, cx, cy, CURSOR_H as int, 0), all);
    }
}

/// The colour that is read at a place; black where there is no pixel.
pub open spec fn read_s(v: ScreenView, x: int, y: int) -> Color {
    if visible(v.info, x, y) {
        let at = offset(v.info, x, y);
        match v.info.pixel_format {
            PixelFormat::Bgr => rgb_s(v.bytes[at + 2], v.bytes[at + 1], v.bytes[at]),
            PixelFormat::U8 => rgb_s(v.bytes[at], v.bytes[at], v.bytes[at]),
            _ => rgb_s(v.bytes[at], v.bytes[at + 1], v.bytes[at + 2]),
        }
    } else {
        Color(Color::BLACK)
    }
}

/// The pixels under the cursor, row by row.
pub open spec fn under_s(v: ScreenView, cx: int, cy: int) -> Seq<Color> {
    Seq::new(228, |k: int| read_s(v, cx + k % 12, cy + k / 12))
}

/// The paint of saved pixels.
pub open spec fn saved_paint(pixels: Seq<Color>, cx: int, cy: int) -> Paint {
    |x: int, y: int|
        if 0 <= x - cx < 12 && 0 <= y - cy < 19 {
            Some(pixels[12 * (y - cy) + (x - cx)])
        } else {
            None
        }
}

/// The first `k` saved pixels.
spec fn some_saved(pixels: Seq<Color>, cx: int, cy: int, k: int) -> Paint {
    |x: int, y: int|
        if 0 <= x - cx < 12 && 0 <= y - cy < 19 && 12 * (y - cy) + (x - cx) < k {
            Some(pixels[12 * (y - cy) + (x - cx)])
        } else {
            None
        }
}

/// The pixels that the cursor covers.
#[derive(Debug)]
pub struct CursorSaver {
    pub valid: bool,
    pub x: i32,
    pub y: i32,
    pub pixels: Vec<Color>,
}

impl CursorSaver {
    /// What was saved can be put back.
    pub open spec fn wf(&self) -> bool {
        &&& self.x <= i32::MAX - 11
        &&& self.y <= i32::MAX - 18
        &&& self.valid ==> self.pixels@.len() == 228
    }

    /// Nothing saved.
    pub fn new() -> (r: CursorSaver)
        ensures
            r.wf(),
            !r.valid,
    {
        CursorSaver { valid: false, x: 0, y: 0, pixels: Vec::new() }
    }

    /// Saves the pixels that the cursor is about to cover.
    pub fn save(&mut self, fb: &FrameBuffer, x: i32, y: i32)
        requires
            fb.wf(),
            x <= i32::MAX - 11,
            y <= i32::MAX - 18,
        ensures
            final(self).wf(),
            final(self).valid,
            final(self).x == x && final(self).y == y,
            final(self).pixels@ == under_s(fb@, x as int, y as int),
    {
        let ghost all = under_s(fb@, x as int, y as int);
        let mut pixels: Vec<Color> = Vec::new();
        let mut k: usize = 0;
        while k < 228
            invariant
                fb.wf(),
                x <= i32::MAX - 11,
                y <= i32::MAX - 18,
                k <= 228,
                all == under_s(fb@, x as int, y as int),
                pixels@ == all.take(k as int),
            decreases 228 - k,
        {
            let sx: i32 = x + (k % 12) as i32;
            let sy: i32 = y + (k / 12) as i32;
            let c = if sx >= 0 && sy >= 0 {
                fb.read_pixel(sx as usize, sy as usize)
            } else {
                Color(Color::BLACK)
            };
            pixels.push(c);
            k = k + 1;
            assert(pixels@ =~= all.take(k as int));
        }
        assert(all.take(228) =~= all);
        self.pixels = pixels;
        self.x = x;
        self.y = y;
        self.valid = true;
    }

    /// Puts the saved pixels back, if there are any.
    pub fn restore(&self, fb: &mut FrameBuffer)
        requires
            self.wf(),
            old(fb).wf(),
        ensures
            final(fb).wf(),
            if self.valid {
                painted(
                    old(fb)@,
                    final(fb)@,
                    saved_paint(self.pixels@, self.x as int, self.y as int),
                )
            } else {
                final(fb)@ == old(fb)@
            },
    {
        if !self.valid {
            return ;
        }
        let ghost v0 = fb@;
        let ghost (cx, cy) = (self.x as int, self.y as int);
        let mut k: usize = 0;
        proof {
            lemma_blank(v0);
            lemma_same_paint(v0, v0, blank(), some_saved(self.pixels@, cx, cy, 0));
        }
        while k < 228
            invariant
                self.wf(),
                self.valid,
                fb.wf(),
                fb@.info == v0.info,
                (cx, cy) == (self.x as int, self.y as int),
                k <= 228,
                painted(v0, fb@, some_saved(self.pixels@, cx, cy, k as int)),
            decreases 228 - k,
        {
            let sx: i32 = self.x + (k % 12) as i32;
            let sy: i32 = self.y + (k / 12) as i32;
            let c = self.pixels[k];
            let ghost v1 = fb@;
            let ghost p = some_saved(self.pixels@, cx, cy, k as int);
            let ghost q = some_saved(self.pixels@, cx, cy, k + 1);
            if sx >= 0 && sy >= 0 {
                fb.put_pixel(sx as usize, sy as usize, c);
                proof {
                    lemma_repaint(v0, v1, fb@, p, dot(sx as int, sy as int, c), q);
                }
            } else {
                proof {
                    lemma_same_paint(v0, v1, p, q);
                }
            }
            k = k + 1;
        }
        proof {
            lemma_same_paint(
                v0,
                fb@,
                some_saved(self.pixels@, cx, cy, 228),
                saved_paint(self.pixels@, cx, cy),
            );
        }
    }
}

/// A pixel is as it was once what was under the cursor is put back.
#[verifier::spinoff_prover]
#[verifier::rlimit(40)]
proof fn lemma_pixel_is_back(
    v0: ScreenView,
    v1: ScreenView,
    v2: ScreenView,
    cx: int,
    cy: int,
    x: int,
    y: int,
)
    requires
        info_ok(v0.info),
        v0.bytes.len() == v0.info.byte_len,
        v0.info.pixel_format == PixelFormat::Rgb || v0.info.pixel_format == PixelFormat::Bgr,
        painted(v0, v1, cursor_paint(cx, cy)),
        painted(v1, v2, saved_paint(under_s(v0, cx, cy), cx, cy)),
        visible(v0.info, x, y),
    ensures
        pixel(v2, x, y) == pixel(v0, x, y),
{
    let saved = under_s(v0, cx, cy);
    crate::framebuffer::lemma_offset(v0.info, x, y);
    assert(visible(v1.info, x, y));
    assert(pixel(v1, x, y) == pixel(v1, x, y));
    if 0 <= x - cx < 12 && 0 <= y - cy < 19 {
        let k = 12 * (y - cy) + (x - cx);
        assert(k % 12 == x - cx && k / 12 == y - cy);
        assert(saved[k] == read_s(v0, x, y));
        assert(pixel(v2, x, y) == encoded(v0.info.pixel_format, read_s(v0, x, y)));
        assert(encoded(v0.info.pixel_format, read_s(v0, x, y)) =~= pixel(v0, x, y));
    } else if 0 <= y - cy < 19 {
        lemma_sprite(y - cy);
    }
}

/// The cursor leaves no trace: where pixels hold three colours, saving what is
/// under the cursor, drawing it and putting the pixels back gives the screen as it
/// was.
pub proof fn law_cursor_leaves_no_trace(
    v0: ScreenView,
    v1: ScreenView,
    v2: ScreenView,
    cx: int,
    cy: int,
)
    requires
        info_ok(v0.info),
        v0.bytes.len() == v0.info.byte_len,
        v0.info.pixel_format == PixelFormat::Rgb || v0.info.pixel_format == PixelFormat::Bgr,
        painted(v0, v1, cursor_paint(cx, cy)),
        painted(v1, v2, saved_paint(under_s(v0, cx, cy), cx, cy)),
    ensures
        v2 == v0,
{
    assert forall|x: int, y: int| visible(v0.info, x, y) implies #[trigger] pixel(v2, x, y) == pixel(
        v0,
        x,
        y,
    ) by {
        lemma_pixel_is_back(v0, v1, v2, cx, cy, x, y);
    }
    assert forall|k: int| 0 <= k < v0.bytes.len() implies #[trigger] v2.bytes[k] == v0.bytes[k] by {
        if is_colour(v0.info, k) {
            let (x, y) = choose|x: int, y: int|
                #[trigger] visible(v0.info, x, y) && offset(v0.info, x, y) <= k < offset(
                    v0.info,
                    x,
                    y,
                ) + stored(v0.info.pixel_format);
            let at = offset(v0.info, x, y);
            crate::framebuffer::lemma_offset(v0.info, x, y);
            assert(pixel(v2, x, y)[k - at] == pixel(v0, x, y)[k - at]);
        } else {
            assert(v1.bytes[k] == v0.bytes[k]);
        }
    }
    assert(v2 =~= v0);
}

} // verus!
