//! The test pattern that is shown at boot.

use super::draw::{everywhere, outline};
use super::{
    block, lemma_repaint, lemma_same_paint, over, painted, rgb_s, Color, FrameBuffer, Paint,
};
use vstd::prelude::*;

verus! {

/// The colour of a swatch.
pub open spec fn swatch_s(i: int) -> Color {
    if i == 0 {
        Color(Color::RED)
    } else if i == 1 {
        Color(0xFF8800)
    } else if i == 2 {
        Color(Color::YELLOW)
    } else if i == 3 {
        Color(Color::GREEN)
    } else if i == 4 {
        Color(Color::CYAN)
    } else if i == 5 {
        Color(Color::BLUE)
    } else if i == 6 {
        Color(Color::MAGENTA)
    } else {
        Color(Color::WHITE)
    }
}

/// The colour of a swatch.
fn swatch(i: usize) -> (r: Color)
    ensures
        r == swatch_s(i as int),
{
    if i == 0 {
        Color(Color::RED)
    } else if i == 1 {
        Color(0xFF8800)
    } else if i == 2 {
        Color(Color::YELLOW)
    } else if i == 3 {
        Color(Color::GREEN)
    } else if i == 4 {
        Color(Color::CYAN)
    } else if i == 5 {
        Color(Color::BLUE)
    } else if i == 6 {
        Color(Color::MAGENTA)
    } else {
        Color(Color::WHITE)
    }
}

/// The first `n` swatches: squares of sixty pixels, framed in white.
pub open spec fn swatches(n: int) -> Paint {
    |x: int, y: int|
        if 40 <= x && (x - 40) / 72 < n && (x - 40) % 72 < 60 && 60 <= y < 120 {
            Some(
                if (x - 40) % 72 == 0 || (x - 40) % 72 == 59 || y == 60 || y == 119 {
                    Color(Color::WHITE)
                } else {
                    swatch_s((x - 40) / 72)
                },
            )
        } else {
            None
        }
}

/// How many swatches fit.
pub open spec fn fitting(w: int) -> int {
    if w < 100 {
        0
    } else if (w - 100) / 72 + 1 < 8 {
        (w - 100) / 72 + 1
    } else {
        8
    }
}

/// A colour on the way from red over green to blue.
pub open spec fn gradient(x: int, w: int) -> Color {
    let t = x * 255 / w;
    if t < 128 {
        let k = (t * 2) as u8;
        rgb_s((255 - k) as u8, k, 0)
    } else {
        let k = ((t - 128) * 2) as u8;
        rgb_s(0, (255 - k) as u8, k)
    }
}

/// The first `n` columns of the gradient.
pub open spec fn strip(n: int, w: int) -> Paint {
    |x: int, y: int|
        if x < n && 160 <= y < 210 {
            Some(gradient(x, w))
        } else {
            None
        }
}

/// The desktop with its title bar.
pub open spec fn backdrop() -> Paint {
    |x: int, y: int|
        if y < 24 {
            Some(Color(0x123A52))
        } else if y < 26 {
            Some(Color(0x2BD6C4))
        } else {
            Some(Color(Color::DESKTOP))
        }
}

/// The test pattern.
pub open spec fn pattern(w: int, h: int) -> Paint {
    let below = over(swatches(fitting(w)), backdrop());
    if 210 < h {
        over(strip(w, w), below)
    } else {
        below
    }
}

impl FrameBuffer {
    /// Draws the desktop and its title bar.
    fn draw_backdrop(&mut self)
        requires
            old(self).wf(),
        ensures
            final(self).wf(),
            painted(old(self)@, final(self)@, backdrop()),
    {
        let ghost v0 = self@;
        let w: usize = self.info().width;
        self.clear(Color(Color::DESKTOP));
        let ghost v1 = self@;
        self.fill_rect(0, 0, w, 24, Color(0x123A52));
        let ghost v2 = self@;
        self.fill_rect(0, 24, w, 2, Color(0x2BD6C4));
        proof {
            let p0 = everywhere(Color(Color::DESKTOP));
            let p1 = block(0, 0, w as int, 24, Color(0x123A52));
            let p2 = block(0, 24, w as int, 2, Color(0x2BD6C4));
            lemma_repaint(v0, v1, v2, p0, p1, over(p1, p0));
            lemma_repaint(v0, v2, self@, over(p1, p0), p2, backdrop());
        }
    }

    /// Draws the swatches that fit.
    fn draw_swatches(&mut self)
        requires
            old(self).wf(),
        ensures
            final(self).wf(),
            painted(
                old(self)@,
                final(self)@,
                swatches(fitting(old(self)@.info.width as int)),
            ),
    {
        let ghost v0 = self@;
        let w: usize = self.info().width;
        let mut i: usize = 0;
        proof {
            super::lemma_blank(v0);
            lemma_same_paint(v0, v0, super::blank(), swatches(0));
        }
        while i < 8 && w >= 100 && 72 * i <= w - 100
            invariant
                self.wf(),
                self@.info == v0.info,
                w == v0.info.width,
                i <= 8,
                i <= fitting(w as int),
                painted(v0, self@, swatches(i as int)),
            decreases 8 - i,
        {
            let x: usize = 40 + 72 * i;
            let c = swatch(i);
            let ghost v1 = self@;
            self.fill_rect(x, 60, 60, 60, c);
            let ghost v2 = self@;
            self.draw_rect_outline(x, 60, 60, 60, Color(Color::WHITE));
            proof {
                let p = swatches(i as int);
                let q = block(x as int, 60, 60, 60, c);
                let r = outline(x as int, 60, 60, 60, Color(Color::WHITE));
                lemma_repaint(v0, v1, v2, p, q, over(q, p));
                lemma_repaint(v0, v2, self@, over(q, p), r, swatches(i + 1));
            }
            i = i + 1;
        }
        assert(i == fitting(w as int));
    }

    /// Draws the gradient.
    fn draw_gradient(&mut self)
        requires
            old(self).wf(),
            old(self)@.info.width * 255 <= usize::MAX,
        ensures
            final(self).wf(),
            painted(
                old(self)@,
                final(self)@,
                strip(old(self)@.info.width as int, old(self)@.info.width as int),
            ),
    {
        let ghost v0 = self@;
        let w: usize = self.info().width;
        let mut x: usize = 0;
        proof {
            super::lemma_blank(v0);
            lemma_same_paint(v0, v0, super::blank(), strip(0, w as int));
        }
        while x < w
            invariant
                self.wf(),
                self@.info == v0.info,
                w == v0.info.width,
                w * 255 <= usize::MAX,
                x <= w,
                painted(v0, self@, strip(x as int, w as int)),
            decreases w - x,
        {
            let t: usize = x * 255 / w;
            proof {
                assert(t <= 254) by (nonlinear_arith)
                    requires
                        x < w,
                        t == x * 255 / w as int,
                ;
            }
            let c = if t < 128 {
                let k: u8 = (t * 2) as u8;
                Color::rgb(255 - k, k, 0)
            } else {
                let k: u8 = ((t - 128) * 2) as u8;
                Color::rgb(0, 255 - k, k)
            };
            let ghost v1 = self@;
            self.fill_rect(x, 160, 1, 50, c);
            proof {
                assert(c == gradient(x as int, w as int));
                lemma_repaint(
                    v0,
                    v1,
                    self@,
                    strip(x as int, w as int),
                    block(x as int, 160, 1, 50, c),
                    strip(x + 1, w as int),
                );
            }
            x = x + 1;
        }
    }

    /// Draws the test pattern: a desktop with a title bar, swatches, and a
    /// gradient where there is room for it.
    pub fn draw_boot_test_pattern(&mut self)
        requires
            old(self).wf(),
            old(self)@.info.width * 255 <= usize::MAX,
        ensures
            final(self).wf(),
            painted(
                old(self)@,
                final(self)@,
                pattern(old(self)@.info.width as int, old(self)@.info.height as int),
            ),
    {
        let ghost v0 = self@;
        let info = self.info();
        let ghost (w, h) = (info.width as int, info.height as int);
        if info.width == 0 || info.height == 0 {
            proof {
                super::lemma_blank(v0);
                lemma_same_paint(v0, v0, super::blank(), pattern(w, h));
            }
            return ;
        }
        self.draw_backdrop();
        let ghost v1 = self@;
        self.draw_swatches();
        let ghost v2 = self@;
        let ghost below = over(swatches(fitting(w)), backdrop());
        proof {
            lemma_repaint(v0, v1, v2, backdrop(), swatches(fitting(w)), below);
        }
        if 210 < info.height {
            self.draw_gradient();
            proof {
                lemma_repaint(v0, v2, self@, below, strip(w, w), over(strip(w, w), below));
            }
        }
    }
}

} // verus!
