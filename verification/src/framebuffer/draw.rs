//! Shapes and text.

use super::{
    blank, block, dot, lemma_blank, lemma_repaint, lemma_same_paint, over, painted, visible, Color,
    FrameBuffer, Paint,
};
use vstd::prelude::*;
use vstd::string::StrSliceExecFns;

verus! {

/// Size of a character in pixels.
pub const GLYPH_W: usize = 8;

/// Size of a character in pixels.
pub const GLYPH_H: usize = 8;

/// The rows of a character of the built-in font, top to bottom. The lowest bit of
/// a row is its leftmost pixel.
pub uninterp spec fn font_rows(code: nat) -> Seq<u8>;

/// Reads `font8x8::legacy::BASIC_LEGACY`, the table of the basic Latin characters
/// `U+0000` to `U+007F`: the eight rows at a code. They are a function of the code
/// alone.
#[verifier::external_body]
fn basic_glyph(code: usize) -> (r: [u8; 8])
    requires
        code < 128,
    ensures
        r@ == font_rows(code as nat),
{
    font8x8::legacy::BASIC_LEGACY[code]
}

/// The rows of a character; those outside basic Latin look like a question mark.
pub open spec fn glyph_s(c: char) -> Seq<u8> {
    if (c as int) < 128 {
        font_rows(c as nat)
    } else {
        font_rows('?' as nat)
    }
}

/// Finds the rows of a character.
fn glyph_of(c: char) -> (r: [u8; 8])
    ensures
        r@ == glyph_s(c),
{
    let code: u32 = c as u32;
    if code < 128 {
        basic_glyph(code as usize)
    } else {
        basic_glyph('?' as usize)
    }
}

/// Whether a row has a pixel in a column.
pub open spec fn lit_bit(row: u8, col: u32) -> bool {
    (row >> col) & 1 != 0
}

/// Whether a character has a pixel at a place.
pub open spec fn lit(c: char, col: int, row: int) -> bool {
    lit_bit(glyph_s(c)[row], col as u32)
}

/// The paint of a character with its background.
pub open spec fn glyph_paint(c: char, px: int, py: int, fg: Color, bg: Color) -> Paint {
    |x: int, y: int|
        if px <= x < px + 8 && py <= y < py + 8 {
            Some(
                if lit(c, x - px, y - py) {
                    fg
                } else {
                    bg
                },
            )
        } else {
            None
        }
}

/// The paint of a character without a background.
pub open spec fn glyph_fg_paint(c: char, px: int, py: int, fg: Color) -> Paint {
    |x: int, y: int|
        if px <= x < px + 8 && py <= y < py + 8 && lit(c, x - px, y - py) {
            Some(fg)
        } else {
            None
        }
}

/// The paint of a text with its background.
pub open spec fn text_paint(t: Seq<char>, px: int, py: int, fg: Color, bg: Color) -> Paint {
    |x: int, y: int|
        if px <= x < px + 8 * t.len() && py <= y < py + 8 {
            Some(
                if lit(t[(x - px) / 8], (x - px) % 8, y - py) {
                    fg
                } else {
                    bg
                },
            )
        } else {
            None
        }
}

/// The paint of a text without a background.
pub open spec fn text_fg_paint(t: Seq<char>, px: int, py: int, fg: Color) -> Paint {
    |x: int, y: int|
        if px <= x < px + 8 * t.len() && py <= y < py + 8 && lit(
            t[(x - px) / 8],
            (x - px) % 8,
            y - py,
        ) {
            Some(fg)
        } else {
            None
        }
}

/// The paint of a text whose pixels are squares of a size, without a background.
pub open spec fn scaled_paint(t: Seq<char>, px: int, py: int, fg: Color, scale: int) -> Paint {
    |x: int, y: int|
        if scale > 0 && px <= x < px + 8 * t.len() * scale && py <= y < py + 8 * scale && lit(
            t[(x - px) / scale / 8],
            (x - px) / scale % 8,
            (y - py) / scale,
        ) {
            Some(fg)
        } else {
            None
        }
}

/// The paint of the outline of a rectangle, one pixel wide.
pub open spec fn outline(px: int, py: int, w: int, h: int, c: Color) -> Paint {
    |x: int, y: int|
        if px <= x < px + w && py <= y < py + h && (x == px || x == px + w - 1 || y == py || y == py
            + h - 1) {
            Some(c)
        } else {
            None
        }
}

/// The paint of the whole screen.
pub open spec fn everywhere(c: Color) -> Paint {
    |x: int, y: int| Some(c)
}

/// Rows of a rectangle, and the beginning of one more.
spec fn partial(px: int, py: int, w: int, yy: int, xx: int, c: Color) -> Paint {
    |x: int, y: int|
        if px <= x < px + w && py <= y && (y < yy || (y == yy && x < xx)) {
            Some(c)
        } else {
            None
        }
}

impl FrameBuffer {
    /// Fills a rectangle, as far as it is on the screen.
    pub fn fill_rect(&mut self, x: usize, y: usize, w: usize, h: usize, color: Color)
        requires
            old(self).wf(),
        ensures
            final(self).wf(),
            painted(
                old(self)@,
                final(self)@,
                block(x as int, y as int, w as int, h as int, color),
            ),
    {
        let ghost v0 = self@;
        let info = self.info();
        let x_end: usize = if w <= info.width && x <= info.width - w {
            x + w
        } else {
            info.width
        };
        let y_end: usize = if h <= info.height && y <= info.height - h {
            y + h
        } else {
            info.height
        };
        let mut yy: usize = y;
        proof {
            lemma_blank(v0);
            lemma_same_paint(
                v0,
                v0,
                blank(),
                partial(x as int, y as int, w as int, yy as int, x as int, color),
            );
        }
        while yy < y_end
            invariant
                self.wf(),
                self@.info == v0.info,
                info == v0.info,
                x_end <= info.width,
                x_end <= x + w,
                x_end == x + w || x_end == info.width,
                y <= yy,
                yy <= y_end || yy == y,
                painted(
                    v0,
                    self@,
                    partial(x as int, y as int, w as int, yy as int, x as int, color),
                ),
            decreases y_end - yy,
        {
            let mut xx: usize = x;
            while xx < x_end
                invariant
                    self.wf(),
                    self@.info == v0.info,
                    info == v0.info,
                    x_end <= info.width,
                    x_end <= x + w,
                    x <= xx,
                    y <= yy < y_end,
                    painted(
                        v0,
                        self@,
                        partial(x as int, y as int, w as int, yy as int, xx as int, color),
                    ),
                decreases x_end - xx,
            {
                let ghost v1 = self@;
                self.put_pixel(xx, yy, color);
                proof {
                    lemma_repaint(
                        v0,
                        v1,
                        self@,
                        partial(x as int, y as int, w as int, yy as int, xx as int, color),
                        dot(xx as int, yy as int, color),
                        partial(x as int, y as int, w as int, yy as int, xx + 1, color),
                    );
                }
                xx = xx + 1;
            }
            proof {
                lemma_same_paint(
                    v0,
                    self@,
                    partial(x as int, y as int, w as int, yy as int, xx as int, color),
                    partial(x as int, y as int, w as int, yy + 1, x as int, color),
                );
            }
            yy = yy + 1;
        }
        proof {
            lemma_same_paint(
                v0,
                self@,
                partial(x as int, y as int, w as int, yy as int, x as int, color),
                block(x as int, y as int, w as int, h as int, color),
            );
        }
    }

    /// Draws the outline of a rectangle.
    pub fn draw_rect_outline(&mut self, x: usize, y: usize, w: usize, h: usize, color: Color)
        requires
            old(self).wf(),
            x + w <= usize::MAX,
            y + h <= usize::MAX,
        ensures
            final(self).wf(),
            painted(
                old(self)@,
                final(self)@,
                outline(x as int, y as int, w as int, h as int, color),
            ),
    {
        let ghost v0 = self@;
        let ghost (a, b, c, d) = (x as int, y as int, w as int, h as int);
        if w == 0 || h == 0 {
            proof {
                lemma_blank(v0);
                lemma_same_paint(v0, v0, blank(), outline(a, b, c, d, color));
            }
            return ;
        }
        self.fill_rect(x, y, w, 1, color);
        let ghost v1 = self@;
        self.fill_rect(x, y + h - 1, w, 1, color);
        let ghost v2 = self@;
        self.fill_rect(x, y, 1, h, color);
        let ghost v3 = self@;
        self.fill_rect(x + w - 1, y, 1, h, color);
        proof {
            let p1 = block(a, b, c, 1, color);
            let p2 = block(a, b + d - 1, c, 1, color);
            let p3 = block(a, b, 1, d, color);
            let p4 = block(a + c - 1, b, 1, d, color);
            lemma_repaint(v0, v1, v2, p1, p2, over(p2, p1));
            lemma_repaint(v0, v2, v3, over(p2, p1), p3, over(p3, over(p2, p1)));
            lemma_repaint(
                v0,
                v3,
                self@,
                over(p3, over(p2, p1)),
                p4,
                outline(a, b, c, d, color),
            );
        }
    }

    /// Fills the whole screen.
    pub fn clear(&mut self, color: Color)
        requires
            old(self).wf(),
        ensures
            final(self).wf(),
            painted(old(self)@, final(self)@, everywhere(color)),
    {
        let ghost v0 = self@;
        let info = self.info();
        self.fill_rect(0, 0, info.width, info.height, color);
        proof {
            lemma_same_paint(
                v0,
                self@,
                block(0, 0, info.width as int, info.height as int, color),
                everywhere(color),
            );
        }
    }

    /// Draws a character with its background.
    pub fn draw_glyph(&mut self, ch: char, px: usize, py: usize, fg: Color, bg: Color)
        requires
            old(self).wf(),
            px + 8 <= usize::MAX,
            py + 8 <= usize::MAX,
        ensures
            final(self).wf(),
            painted(
                old(self)@,
                final(self)@,
                glyph_paint(ch, px as int, py as int, fg, bg),
            ),
    {
        let ghost v0 = self@;
        let rows = glyph_of(ch);
        let ghost all = glyph_paint(ch, px as int, py as int, fg, bg);
        let mut k: usize = 0;
        proof {
            lemma_blank(v0);
            lemma_same_paint(v0, v0, blank(), first(all, px as int, py as int, 0));
        }
        while k < 64
            invariant
                self.wf(),
                self@.info == v0.info,
                k <= 64,
                rows@ == glyph_s(ch),
                px + 8 <= usize::MAX,
                py + 8 <= usize::MAX,
                all == glyph_paint(ch, px as int, py as int, fg, bg),
                painted(v0, self@, first(all, px as int, py as int, k as int)),
            decreases 64 - k,
        {
            let row: usize = k / 8;
            let col: usize = k % 8;
            let bits: u8 = rows[row];
            let on = (bits >> (col as u32)) & 1 != 0;
            let color = if on {
                fg
            } else {
                bg
            };
            let ghost v1 = self@;
            self.put_pixel(px + col, py + row, color);
            proof {
                assert(on == lit(ch, col as int, row as int));
                lemma_repaint(
                    v0,
                    v1,
                    self@,
                    first(all, px as int, py as int, k as int),
                    dot(px + col, py + row, color),
                    first(all, px as int, py as int, k + 1),
                );
            }
            k = k + 1;
        }
        proof {
            lemma_same_paint(v0, self@, first(all, px as int, py as int, 64), all);
        }
    }

    /// Draws a character without a background.
    pub fn draw_glyph_fg(&mut self, ch: char, px: usize, py: usize, fg: Color)
        requires
            old(self).wf(),
            px + 8 <= usize::MAX,
            py + 8 <= usize::MAX,
        ensures
            final(self).wf(),
            painted(old(self)@, final(self)@, glyph_fg_paint(ch, px as int, py as int, fg)),
    {
        let ghost v0 = self@;
        let rows = glyph_of(ch);
        let ghost all = glyph_fg_paint(ch, px as int, py as int, fg);
        let mut k: usize = 0;
        proof {
            lemma_blank(v0);
            lemma_same_paint(v0, v0, blank(), first(all, px as int, py as int, 0));
        }
        while k < 64
            invariant
                self.wf(),
                self@.info == v0.info,
                k <= 64,
                rows@ == glyph_s(ch),
                px + 8 <= usize::MAX,
                py + 8 <= usize::MAX,
                all == glyph_fg_paint(ch, px as int, py as int, fg),
                painted(v0, self@, first(all, px as int, py as int, k as int)),
            decreases 64 - k,
        {
            let row: usize = k / 8;
            let col: usize = k % 8;
            let bits: u8 = rows[row];
            let ghost v1 = self@;
            if (bits >> (col as u32)) & 1 != 0 {
                self.put_pixel(px + col, py + row, fg);
                proof {
                    assert(lit(ch, col as int, row as int));
                    lemma_repaint(
                        v0,
                        v1,
                        self@,
                        first(all, px as int, py as int, k as int),
                        dot(px + col, py + row, fg),
                        first(all, px as int, py as int, k + 1),
                    );
                }
            } else {
                proof {
                    assert(!lit(ch, col as int, row as int));
                    lemma_same_paint(
                        v0,
                        v1,
                        first(all, px as int, py as int, k as int),
                        first(all, px as int, py as int, k + 1),
                    );
                }
            }
            k = k + 1;
        }
        proof {
            lemma_same_paint(v0, self@, first(all, px as int, py as int, 64), all);
        }
    }

    /// Draws a text with its background.
    pub fn draw_string(&mut self, s: &str, px: usize, py: usize, fg: Color, bg: Color)
        requires
            old(self).wf(),
            px + 8 * s@.len() <= usize::MAX,
            py + 8 <= usize::MAX,
        ensures
            final(self).wf(),
            painted(
                old(self)@,
                final(self)@,
                text_paint(s@, px as int, py as int, fg, bg),
            ),
    {
        let ghost v0 = self@;
        let n: usize = s.unicode_len();
        let mut i: usize = 0;
        proof {
            lemma_blank(v0);
            lemma_same_paint(
                v0,
                v0,
                blank(),
                text_paint(s@.take(0), px as int, py as int, fg, bg),
            );
        }
        while i < n
            invariant
                self.wf(),
                self@.info == v0.info,
                n == s@.len(),
                i <= n,
                px + 8 * n <= usize::MAX,
                py + 8 <= usize::MAX,
                painted(
                    v0,
                    self@,
                    text_paint(s@.take(i as int), px as int, py as int, fg, bg),
                ),
            decreases n - i,
        {
            let c = s.get_char(i);
            let ghost v1 = self@;
            self.draw_glyph(c, px + 8 * i, py, fg, bg);
            proof {
                lemma_repaint(
                    v0,
                    v1,
                    self@,
                    text_paint(s@.take(i as int), px as int, py as int, fg, bg),
                    glyph_paint(c, px + 8 * i, py as int, fg, bg),
                    text_paint(s@.take(i + 1), px as int, py as int, fg, bg),
                );
            }
            i = i + 1;
        }
        assert(s@.take(n as int) =~= s@);
    }

    /// Draws a text without a background.
    pub fn draw_string_fg(&mut self, s: &str, px: usize, py: usize, fg: Color)
        requires
            old(self).wf(),
            px + 8 * s@.len() <= usize::MAX,
            py + 8 <= usize::MAX,
        ensures
            final(self).wf(),
            painted(old(self)@, final(self)@, text_fg_paint(s@, px as int, py as int, fg)),
    {
        let ghost v0 = self@;
        let n: usize = s.unicode_len();
        let mut i: usize = 0;
        proof {
            lemma_blank(v0);
            lemma_same_paint(v0, v0, blank(), text_fg_paint(s@.take(0), px as int, py as int, fg));
        }
        while i < n
            invariant
                self.wf(),
                self@.info == v0.info,
                n == s@.len(),
                i <= n,
                px + 8 * n <= usize::MAX,
                py + 8 <= usize::MAX,
                painted(v0, self@, text_fg_paint(s@.take(i as int), px as int, py as int, fg)),
            decreases n - i,
        {
            let c = s.get_char(i);
            let ghost v1 = self@;
            self.draw_glyph_fg(c, px + 8 * i, py, fg);
            proof {
                lemma_repaint(
                    v0,
                    v1,
                    self@,
                    text_fg_paint(s@.take(i as int), px as int, py as int, fg),
                    glyph_fg_paint(c, px + 8 * i, py as int, fg),
                    text_fg_paint(s@.take(i + 1), px as int, py as int, fg),
                );
            }
            i = i + 1;
        }
        assert(s@.take(n as int) =~= s@);
    }
}

/// The paint of a character whose pixels are squares of a size.
pub open spec fn scaled_glyph_paint(c: char, px: int, py: int, fg: Color, scale: int) -> Paint {
    |x: int, y: int|
        if scale > 0 && px <= x < px + 8 * scale && py <= y < py + 8 * scale && lit(
            c,
            (x - px) / scale,
            (y - py) / scale,
        ) {
            Some(fg)
        } else {
            None
        }
}

/// The first `k` squares of a character, row by row.
spec fn first_squares(p: Paint, px: int, py: int, scale: int, k: int) -> Paint {
    |x: int, y: int|
        if px <= x < px + 8 * scale && py <= y < py + 8 * scale && 8 * ((y - py) / scale) + (x - px)
            / scale < k {
            p(x, y)
        } else {
            None
        }
}

/// Which square a distance falls into.
proof fn lemma_square(d: int, scale: int, q: int)
    requires
        scale > 0,
    ensures
        d / scale == q <==> q * scale <= d < q * scale + scale,
{
    vstd::arithmetic::div_mod::lemma_fundamental_div_mod(d, scale);
    let r = d / scale;
    assert(d == scale * r + d % scale);
    assert(0 <= d % scale < scale);
    assert(scale * r == r * scale) by (nonlinear_arith);
    if q * scale <= d < q * scale + scale {
        assert(q == r) by (nonlinear_arith)
            requires
                r * scale <= d < r * scale + scale,
                q * scale <= d < q * scale + scale,
                scale > 0,
        ;
    }
}

impl FrameBuffer {
    /// Draws a character whose pixels are squares of a size.
    fn draw_glyph_scaled(&mut self, ch: char, px: usize, py: usize, fg: Color, scale: usize)
        requires
            old(self).wf(),
            scale > 0,
            px + 8 * scale <= usize::MAX,
            py + 8 * scale <= usize::MAX,
        ensures
            final(self).wf(),
            painted(
                old(self)@,
                final(self)@,
                scaled_glyph_paint(ch, px as int, py as int, fg, scale as int),
            ),
    {
        let ghost v0 = self@;
        let rows = glyph_of(ch);
        let ghost all = scaled_glyph_paint(ch, px as int, py as int, fg, scale as int);
        let ghost (a, b, z) = (px as int, py as int, scale as int);
        let mut k: usize = 0;
        proof {
            lemma_blank(v0);
            assert forall|x: int, y: int| visible(v0.info, x, y) implies #[trigger] first_squares(
                all,
                a,
                b,
                z,
                0,
            )(x, y) == blank()(x, y) by {
                if a <= x && b <= y {
                    lemma_square(x - a, z, (x - a) / z);
                    lemma_square(y - b, z, (y - b) / z);
                    vstd::arithmetic::div_mod::lemma_div_pos_is_pos(x - a, z);
                    vstd::arithmetic::div_mod::lemma_div_pos_is_pos(y - b, z);
                }
            }
            lemma_same_paint(v0, v0, blank(), first_squares(all, a, b, z, 0));
        }
        while k < 64
            invariant
                self.wf(),
                self@.info == v0.info,
                k <= 64,
                rows@ == glyph_s(ch),
                scale > 0,
                (a, b, z) == (px as int, py as int, scale as int),
                px + 8 * scale <= usize::MAX,
                py + 8 * scale <= usize::MAX,
                all == scaled_glyph_paint(ch, a, b, fg, z),
                painted(v0, self@, first_squares(all, a, b, z, k as int)),
            decreases 64 - k,
        {
            let row: usize = k / 8;
            let col: usize = k % 8;
            let bits: u8 = rows[row];
            let ghost v1 = self@;
            let on = (bits >> (col as u32)) & 1 != 0;
            proof {
                assert(on == lit(ch, col as int, row as int));
                assert(col * scale <= 7 * scale && row * scale <= 7 * scale) by (nonlinear_arith)
                    requires
                        col <= 7,
                        row <= 7,
                        scale >= 0,
                ;
            }
            if on {
                self.fill_rect(px + col * scale, py + row * scale, scale, scale, fg);
            }
            proof {
                let q = if on {
                    block(px + col * scale, py + row * scale, z, z, fg)
                } else {
                    blank()
                };
                if !on {
                    lemma_blank(v1);
                }
                assert forall|x: int, y: int| visible(v0.info, x, y) implies
                    #[trigger] first_squares(all, a, b, z, k + 1)(x, y) == over(
                    q,
                    first_squares(all, a, b, z, k as int),
                )(x, y) by {
                    lemma_square(x - a, z, col as int);
                    lemma_square(y - b, z, row as int);
                    lemma_square(x - a, z, (x - a) / z);
                    lemma_square(y - b, z, (y - b) / z);
                    lemma_in_square(x - a, z);
                    lemma_in_square(y - b, z);
                }
                lemma_repaint(
                    v0,
                    v1,
                    self@,
                    first_squares(all, a, b, z, k as int),
                    q,
                    first_squares(all, a, b, z, k + 1),
                );
            }
            k = k + 1;
        }
        proof {
            assert forall|x: int, y: int| visible(v0.info, x, y) implies #[trigger] all(x, y)
                == first_squares(all, a, b, z, 64)(x, y) by {
                lemma_in_square(x - a, z);
                lemma_in_square(y - b, z);
            }
            lemma_same_paint(v0, self@, first_squares(all, a, b, z, 64), all);
        }
    }

    /// Draws a text whose pixels are squares of a size, without a background.
    pub fn draw_string_scaled(&mut self, s: &str, px: usize, py: usize, fg: Color, scale: usize)
        requires
            old(self).wf(),
            px + 8 * s@.len() * scale <= usize::MAX,
            py + 8 * scale <= usize::MAX,
        ensures
            final(self).wf(),
            painted(
                old(self)@,
                final(self)@,
                scaled_paint(s@, px as int, py as int, fg, scale as int),
            ),
    {
        let ghost v0 = self@;
        let ghost (a, b, z) = (px as int, py as int, scale as int);
        proof {
            lemma_blank(v0);
            let none = s@.take(0);
            assert(8 * none.len() * z == 0) by (nonlinear_arith)
                requires
                    none.len() == 0,
            ;
            lemma_same_paint(v0, v0, blank(), scaled_paint(none, a, b, fg, z));
        }
        if scale == 0 {
            proof {
                lemma_same_paint(v0, v0, blank(), scaled_paint(s@, a, b, fg, z));
            }
            return ;
        }
        let n: usize = s.unicode_len();
        let mut i: usize = 0;
        while i < n
            invariant
                self.wf(),
                self@.info == v0.info,
                n == s@.len(),
                i <= n,
                scale > 0,
                (a, b, z) == (px as int, py as int, scale as int),
                px + 8 * n * scale <= usize::MAX,
                py + 8 * scale <= usize::MAX,
                painted(v0, self@, scaled_paint(s@.take(i as int), a, b, fg, z)),
            decreases n - i,
        {
            let c = s.get_char(i);
            let ghost v1 = self@;
            proof {
                assert(8 * i * scale + 8 * scale <= 8 * n * scale) by (nonlinear_arith)
                    requires
                        i + 1 <= n,
                        scale >= 0,
                ;
                assert(8 * i <= 8 * i * scale) by (nonlinear_arith)
                    requires
                        i >= 0,
                        scale >= 1,
                ;
            }
            self.draw_glyph_scaled(c, px + 8 * i * scale, py, fg, scale);
            proof {
                let p = scaled_paint(s@.take(i as int), a, b, fg, z);
                let q = scaled_glyph_paint(c, a + 8 * i * scale, b, fg, z);
                let both = scaled_paint(s@.take(i + 1), a, b, fg, z);
                assert forall|x: int, y: int| visible(v0.info, x, y) implies #[trigger] both(x, y)
                    == over(q, p)(x, y) by {
                    lemma_letter(x - a, z, i as int);
                }
                lemma_repaint(v0, v1, self@, p, q, both);
            }
            i = i + 1;
        }
        assert(s@.take(n as int) =~= s@);
    }
}

/// Within eight squares, a distance falls into one of them.
proof fn lemma_in_square(d: int, scale: int)
    requires
        scale > 0,
    ensures
        0 <= d < 8 * scale ==> 0 <= d / scale < 8,
{
    if 0 <= d < 8 * scale {
        lemma_square(d, scale, d / scale);
        let q = d / scale;
        assert(0 <= q < 8) by (nonlinear_arith)
            requires
                q * scale <= d < q * scale + scale,
                0 <= d < 8 * scale,
                scale > 0,
        ;
    }
}

/// Which letter a distance falls into, and where in it.
proof fn lemma_letter(d: int, scale: int, i: int)
    requires
        scale > 0,
        i >= 0,
    ensures
        8 * i * scale <= d < 8 * (i + 1) * scale ==> d / scale / 8 == i && d / scale % 8 == (d - 8
            * i * scale) / scale,
        0 <= d < 8 * i * scale ==> 0 <= d / scale / 8 < i,
        8 * (i + 1) * scale == 8 * i * scale + 8 * scale,
{
    let q = d / scale;
    lemma_square(d, scale, q);
    assert(8 * (i + 1) * scale == 8 * i * scale + 8 * scale) by (nonlinear_arith);
    if 8 * i * scale <= d < 8 * (i + 1) * scale {
        let e = d - 8 * i * scale;
        lemma_square(e, scale, q - 8 * i);
        assert((q - 8 * i) * scale == q * scale - 8 * i * scale) by (nonlinear_arith);
        lemma_in_square(e, scale);
    }
    if 0 <= d < 8 * i * scale {
        assert(0 <= q < 8 * i) by (nonlinear_arith)
            requires
                q * scale <= d < q * scale + scale,
                0 <= d < 8 * i * scale,
                scale > 0,
        ;
    }
}

/// The first `k` pixels of a character, row by row.
spec fn first(p: Paint, px: int, py: int, k: int) -> Paint {
    |x: int, y: int|
        if px <= x < px + 8 && py <= y < py + 8 && 8 * (y - py) + (x - px) < k {
            p(x, y)
        } else {
            None
        }
}

} // verus!
