//! Lists of things to draw.

use super::draw::{everywhere, glyph_fg_paint, outline, scaled_paint, text_fg_paint};
use super::{
    blank, block, dot, lemma_blank, lemma_repaint, over, painted, Color, FrameBuffer, Paint,
};
use vstd::prelude::*;

verus! {

/// Something to draw.
#[allow(inconsistent_fields)]
#[derive(Debug)]
pub enum Draw {
    Clear { color: Color },
    Pixel { x: usize, y: usize, color: Color },
    Rect { x: usize, y: usize, w: usize, h: usize, color: Color },
    Outline { x: usize, y: usize, w: usize, h: usize, color: Color },
    Glyph { c: char, x: usize, y: usize, color: Color },
    Text { text: String, x: usize, y: usize, color: Color },
    Scaled { text: String, x: usize, y: usize, color: Color, scale: usize },
}

/// Something to draw.
pub enum DrawView {
    Clear { color: Color },
    Pixel { x: int, y: int, color: Color },
    Rect { x: int, y: int, w: int, h: int, color: Color },
    Outline { x: int, y: int, w: int, h: int, color: Color },
    Glyph { c: char, x: int, y: int, color: Color },
    Text { text: Seq<char>, x: int, y: int, color: Color },
    Scaled { text: Seq<char>, x: int, y: int, color: Color, scale: int },
}

impl Draw {
    pub open spec fn view(&self) -> DrawView {
        match *self {
            Draw::Clear { color } => DrawView::Clear { color },
            Draw::Pixel { x, y, color } => DrawView::Pixel { x: x as int, y: y as int, color },
            Draw::Rect { x, y, w, h, color } => DrawView::Rect {
                x: x as int,
                y: y as int,
                w: w as int,
                h: h as int,
                color,
            },
            Draw::Outline { x, y, w, h, color } => DrawView::Outline {
                x: x as int,
                y: y as int,
                w: w as int,
                h: h as int,
                color,
            },
            Draw::Glyph { c, x, y, color } => DrawView::Glyph { c, x: x as int, y: y as int, color },
            Draw::Text { text, x, y, color } => DrawView::Text {
                text: text@,
                x: x as int,
                y: y as int,
                color,
            },
            Draw::Scaled { text, x, y, color, scale } => DrawView::Scaled {
                text: text@,
                x: x as int,
                y: y as int,
                color,
                scale: scale as int,
            },
        }
    }
}

/// A list of things to draw.
pub open spec fn views(list: Seq<Draw>) -> Seq<DrawView> {
    list.map_values(|d: Draw| d@)
}

/// The far edges of a thing can be computed.
pub open spec fn in_range(d: DrawView) -> bool {
    match d {
        DrawView::Outline { x, y, w, h, .. } => x + w <= usize::MAX && y + h <= usize::MAX,
        DrawView::Glyph { x, y, .. } => x + 8 <= usize::MAX && y + 8 <= usize::MAX,
        DrawView::Text { text, x, y, .. } => x + 8 * text.len() <= usize::MAX && y + 8
            <= usize::MAX,
        DrawView::Scaled { text, x, y, scale, .. } => x + 8 * text.len() * scale <= usize::MAX && y
            + 8 * scale <= usize::MAX,
        _ => true,
    }
}

/// The paint of a thing.
pub open spec fn paint_of(d: DrawView) -> Paint {
    match d {
        DrawView::Clear { color } => everywhere(color),
        DrawView::Pixel { x, y, color } => dot(x, y, color),
        DrawView::Rect { x, y, w, h, color } => block(x, y, w, h, color),
        DrawView::Outline { x, y, w, h, color } => outline(x, y, w, h, color),
        DrawView::Glyph { c, x, y, color } => glyph_fg_paint(c, x, y, color),
        DrawView::Text { text, x, y, color } => text_fg_paint(text, x, y, color),
        DrawView::Scaled { text, x, y, color, scale } => scaled_paint(text, x, y, color, scale),
    }
}

/// The paint of a list: what comes later covers what came before.
pub open spec fn paint_list(list: Seq<DrawView>) -> Paint
    decreases list.len(),
{
    if list.len() == 0 {
        blank()
    } else {
        over(paint_of(list.last()), paint_list(list.drop_last()))
    }
}

impl FrameBuffer {
    /// Draws a thing.
    fn draw(&mut self, d: &Draw)
        requires
            old(self).wf(),
            in_range(d@),
        ensures
            final(self).wf(),
            painted(old(self)@, final(self)@, paint_of(d@)),
    {
        match d {
            Draw::Clear { color } => self.clear(*color),
            Draw::Pixel { x, y, color } => self.put_pixel(*x, *y, *color),
            Draw::Rect { x, y, w, h, color } => self.fill_rect(*x, *y, *w, *h, *color),
            Draw::Outline { x, y, w, h, color } => self.draw_rect_outline(*x, *y, *w, *h, *color),
            Draw::Glyph { c, x, y, color } => self.draw_glyph_fg(*c, *x, *y, *color),
            Draw::Text { text, x, y, color } => self.draw_string_fg(text.as_str(), *x, *y, *color),
            Draw::Scaled { text, x, y, color, scale } => self.draw_string_scaled(
                text.as_str(),
                *x,
                *y,
                *color,
                *scale,
            ),
        }
    }

    /// Draws a list of things in turn.
    pub fn draw_all(&mut self, list: &Vec<Draw>)
        requires
            old(self).wf(),
            forall|i: int| 0 <= i < list@.len() ==> in_range((#[trigger] list@[i])@),
        ensures
            final(self).wf(),
            painted(old(self)@, final(self)@, paint_list(views(list@))),
    {
        let ghost v0 = self@;
        let ghost all = views(list@);
        let mut i: usize = 0;
        proof {
            lemma_blank(v0);
        }
        while i < list.len()
            invariant
                self.wf(),
                self@.info == v0.info,
                i <= list@.len(),
                all == views(list@),
                forall|i: int| 0 <= i < list@.len() ==> in_range((#[trigger] list@[i])@),
                painted(v0, self@, paint_list(all.take(i as int))),
            decreases list@.len() - i,
        {
            let ghost v1 = self@;
            self.draw(&list[i]);
            proof {
                let before = all.take(i as int);
                let after = all.take(i + 1);
                assert(after.drop_last() =~= before);
                assert(after.last() == list@[i as int]@);
                lemma_repaint(
                    v0,
                    v1,
                    self@,
                    paint_list(before),
                    paint_of(list@[i as int]@),
                    paint_list(after),
                );
            }
            i = i + 1;
        }
        assert(all.take(list@.len() as int) =~= all);
    }
}

} // verus!
