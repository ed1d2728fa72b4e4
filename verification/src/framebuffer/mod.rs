//! Drawing into a linear framebuffer: pixels, rectangles, text, and the text
//! console on the screen.

use vstd::prelude::*;

pub mod console;
pub mod draw;
pub mod list;
pub mod pattern;
pub mod screen_laws;

verus! {

/// A colour as `0x00RRGGBB`.
#[derive(Debug, Clone, Copy, PartialEq, Eq, Structural)]
pub struct Color(pub u32);

impl Color {
    pub const BLACK: u32 = 0x000000;

    pub const WHITE: u32 = 0xFFFFFF;

    pub const RED: u32 = 0xFF0000;

    pub const GREEN: u32 = 0x00FF00;

    pub const BLUE: u32 = 0x0000FF;

    pub const CYAN: u32 = 0x00FFFF;

    pub const MAGENTA: u32 = 0xFF00FF;

    pub const YELLOW: u32 = 0xFFFF00;

    pub const GRAY: u32 = 0x808080;

    pub const DARK_GRAY: u32 = 0x202020;

    /// The background of the desktop.
    pub const DESKTOP: u32 = 0x0A3D4A;

    pub open spec fn red(self) -> u8 {
        (self.0 / 0x10000 % 0x100) as u8
    }

    pub open spec fn green(self) -> u8 {
        (self.0 / 0x100 % 0x100) as u8
    }

    pub open spec fn blue(self) -> u8 {
        (self.0 % 0x100) as u8
    }

    /// The colour made of three parts.
    pub fn rgb(r: u8, g: u8, b: u8) -> (c: Color)
        ensures
            c == rgb_s(r, g, b),
            c.red() == r,
            c.green() == g,
            c.blue() == b,
    {
        Color(r as u32 * 0x10000 + g as u32 * 0x100 + b as u32)
    }

    /// The red part.
    pub fn r(self) -> (v: u8)
        ensures
            v == self.red(),
    {
        (self.0 / 0x10000 % 0x100) as u8
    }

    /// The green part.
    pub fn g(self) -> (v: u8)
        ensures
            v == self.green(),
    {
        (self.0 / 0x100 % 0x100) as u8
    }

    /// The blue part.
    pub fn b(self) -> (v: u8)
        ensures
            v == self.blue(),
    {
        (self.0 % 0x100) as u8
    }
}

/// The colour made of three parts.
pub open spec fn rgb_s(r: u8, g: u8, b: u8) -> Color {
    Color((r * 0x10000 + g * 0x100 + b) as u32)
}

/// How a pixel is stored.
#[derive(Debug, Clone, Copy, PartialEq, Eq, Structural)]
pub enum PixelFormat {
    Rgb,
    Bgr,
    U8,
    Unknown,
}

/// The geometry of a framebuffer. `stride` counts pixels.
#[derive(Debug, Clone, Copy, PartialEq, Eq, Structural)]
pub struct FrameBufferInfo {
    pub width: usize,
    pub height: usize,
    pub stride: usize,
    pub bytes_per_pixel: usize,
    pub byte_len: usize,
    pub pixel_format: PixelFormat,
}

/// How many bytes of a pixel carry its colour.
pub open spec fn stored(f: PixelFormat) -> int {
    match f {
        PixelFormat::U8 => 1,
        PixelFormat::Unknown => 1,
        _ => 3,
    }
}

/// The rows do not overlap, a pixel has room for its colour, and every place can
/// be computed.
pub open spec fn info_ok(i: FrameBufferInfo) -> bool {
    &&& i.width <= i.stride
    &&& i.bytes_per_pixel >= (if i.pixel_format == PixelFormat::U8 {
        1int
    } else {
        3int
    })
    &&& i.height * i.stride * i.bytes_per_pixel <= usize::MAX
}

/// Where a pixel is stored.
pub open spec fn offset(i: FrameBufferInfo, x: int, y: int) -> int {
    (y * i.stride + x) * i.bytes_per_pixel
}

/// A pixel is on the screen, and in memory.
pub open spec fn visible(i: FrameBufferInfo, x: int, y: int) -> bool {
    &&& 0 <= x < i.width
    &&& 0 <= y < i.height
    &&& offset(i, x, y) + i.bytes_per_pixel <= i.byte_len
}

/// The brightness of a colour.
pub open spec fn luminance(c: Color) -> u8 {
    ((c.red() * 54 + c.green() * 183 + c.blue() * 19) / 256) as u8
}

/// The bytes that carry a colour.
pub open spec fn encoded(f: PixelFormat, c: Color) -> Seq<u8> {
    match f {
        PixelFormat::Rgb => seq![c.red(), c.green(), c.blue()],
        PixelFormat::Bgr => seq![c.blue(), c.green(), c.red()],
        PixelFormat::U8 => seq![luminance(c)],
        PixelFormat::Unknown => seq![c.blue()],
    }
}

/// A framebuffer: its geometry and its bytes.
#[verifier::ext_equal]
pub struct ScreenView {
    pub info: FrameBufferInfo,
    pub bytes: Seq<u8>,
}

/// The bytes that carry the colour of a pixel.
pub open spec fn pixel(v: ScreenView, x: int, y: int) -> Seq<u8> {
    let at = offset(v.info, x, y);
    v.bytes.subrange(at, at + stored(v.info.pixel_format))
}

/// Whether a byte belongs to the colour of a visible pixel.
pub open spec fn is_colour(i: FrameBufferInfo, k: int) -> bool {
    exists|x: int, y: int|
        #[trigger] visible(i, x, y) && offset(i, x, y) <= k < offset(i, x, y) + stored(i.pixel_format)
}

/// What is painted where; nothing where the old colour shows.
pub type Paint = spec_fn(int, int) -> Option<Color>;

/// A screen was painted: the pixels where there is paint have its colour, and
/// everything else is as it was.
pub open spec fn painted(v0: ScreenView, v1: ScreenView, p: Paint) -> bool {
    &&& v1.info == v0.info
    &&& v1.bytes.len() == v0.bytes.len()
    &&& forall|x: int, y: int|
        visible(v0.info, x, y) ==> #[trigger] pixel(v1, x, y) == (match p(x, y) {
            Some(c) => encoded(v0.info.pixel_format, c),
            None => pixel(v0, x, y),
        })
    &&& forall|k: int|
        0 <= k < v0.bytes.len() && !is_colour(v0.info, k) ==> #[trigger] v1.bytes[k]
            == v0.bytes[k]
}

/// One paint over another.
pub open spec fn over(top: Paint, below: Paint) -> Paint {
    |x: int, y: int|
        match top(x, y) {
            Some(c) => Some(c),
            None => below(x, y),
        }
}

/// Painting twice is painting once with one paint over the other.
pub proof fn lemma_repaint(
    v0: ScreenView,
    v1: ScreenView,
    v2: ScreenView,
    p: Paint,
    q: Paint,
    both: Paint,
)
    requires
        painted(v0, v1, p),
        painted(v1, v2, q),
        forall|x: int, y: int|
            visible(v0.info, x, y) ==> #[trigger] both(x, y) == over(q, p)(x, y),
    ensures
        painted(v0, v2, both),
{
    assert forall|x: int, y: int| visible(v0.info, x, y) implies #[trigger] pixel(v2, x, y) == (
    match both(x, y) {
        Some(c) => encoded(v0.info.pixel_format, c),
        None => pixel(v0, x, y),
    }) by {
        assert(visible(v1.info, x, y));
        assert(pixel(v1, x, y) == pixel(v1, x, y));
        assert(both(x, y) == over(q, p)(x, y));
    }
}

/// Two paints that agree on the screen paint the same.
pub proof fn lemma_same_paint(v0: ScreenView, v1: ScreenView, p: Paint, q: Paint)
    requires
        painted(v0, v1, p),
        forall|x: int, y: int| visible(v0.info, x, y) ==> #[trigger] q(x, y) == p(x, y),
    ensures
        painted(v0, v1, q),
{
    assert forall|x: int, y: int| visible(v0.info, x, y) implies #[trigger] pixel(v1, x, y) == (
    match q(x, y) {
        Some(c) => encoded(v0.info.pixel_format, c),
        None => pixel(v0, x, y),
    }) by {
        assert(q(x, y) == p(x, y));
    }
}

/// No paint.
pub open spec fn blank() -> Paint {
    |x: int, y: int| None
}

/// Without paint the screen stays as it is.
pub proof fn lemma_blank(v: ScreenView)
    ensures
        painted(v, v, blank()),
{
}

pub proof fn lemma_offset(i: FrameBufferInfo, x: int, y: int)
    requires
        info_ok(i),
        0 <= x < i.stride,
        0 <= y < i.height,
    ensures
        0 <= y * i.stride <= y * i.stride + x < i.height * i.stride,
        0 <= offset(i, x, y),
        offset(i, x, y) + i.bytes_per_pixel <= i.height * i.stride * i.bytes_per_pixel,
{
    let (s, h, b) = (i.stride as int, i.height as int, i.bytes_per_pixel as int);
    assert(0 <= y * s && y * s + x < h * s) by (nonlinear_arith)
        requires
            0 <= x < s,
            0 <= y < h,
    ;
    let n = y * s + x;
    let m = h * s;
    assert(0 <= n * b && n * b + b <= m * b) by (nonlinear_arith)
        requires
            0 <= n < m,
            b >= 0,
    ;
}

proof fn lemma_apart(i: FrameBufferInfo, x: int, y: int, u: int, w: int)
    requires
        info_ok(i),
        0 <= x < i.stride,
        0 <= u < i.stride,
        0 <= y < i.height,
        0 <= w < i.height,
        (x, y) != (u, w),
    ensures
        offset(i, x, y) + i.bytes_per_pixel <= offset(i, u, w) || offset(i, u, w)
            + i.bytes_per_pixel <= offset(i, x, y),
{
    let (s, b) = (i.stride as int, i.bytes_per_pixel as int);
    let n = y * s + x;
    let m = w * s + u;
    assert(n != m) by {
        if y < w {
            assert(y * s + s <= w * s) by (nonlinear_arith)
                requires
                    y < w,
                    s >= 0,
            ;
        } else if w < y {
            assert(w * s + s <= y * s) by (nonlinear_arith)
                requires
                    w < y,
                    s >= 0,
            ;
        }
    }
    assert(n * b + b <= m * b || m * b + b <= n * b) by (nonlinear_arith)
        requires
            n != m,
            b >= 0,
    ;
}

/// The paint of a single pixel.
pub open spec fn dot(px: int, py: int, c: Color) -> Paint {
    |x: int, y: int|
        if x == px && y == py {
            Some(c)
        } else {
            None
        }
}

/// The paint of a rectangle.
pub open spec fn block(px: int, py: int, w: int, h: int, c: Color) -> Paint {
    |x: int, y: int|
        if px <= x < px + w && py <= y < py + h {
            Some(c)
        } else {
            None
        }
}

/// A framebuffer in memory.
pub struct FrameBuffer {
    info: FrameBufferInfo,
    bytes: Vec<u8>,
}

impl FrameBuffer {
    pub closed spec fn view(&self) -> ScreenView {
        ScreenView { info: self.info, bytes: self.bytes@ }
    }

    pub open spec fn wf(&self) -> bool {
        &&& info_ok(self@.info)
        &&& self@.bytes.len() == self@.info.byte_len
    }

    /// A framebuffer over the given bytes.
    pub fn new(info: FrameBufferInfo, bytes: Vec<u8>) -> (r: FrameBuffer)
        requires
            info_ok(info),
            bytes@.len() == info.byte_len,
        ensures
            r.wf(),
            r@ == (ScreenView { info, bytes: bytes@ }),
    {
        FrameBuffer { info, bytes }
    }

    /// Screen width in pixels.
    pub fn width(&self) -> (r: usize)
        ensures
            r == self@.info.width,
    {
        self.info.width
    }

    /// Screen height in pixels.
    pub fn height(&self) -> (r: usize)
        ensures
            r == self@.info.height,
    {
        self.info.height
    }

    /// The geometry.
    pub fn info(&self) -> (r: FrameBufferInfo)
        ensures
            r == self@.info,
    {
        self.info
    }

    /// The bytes, as they go to the hardware.
    pub fn bytes(&self) -> (r: &[u8])
        ensures
            r@ == self@.bytes,
    {
        self.bytes.as_slice()
    }

    /// Where a pixel is, if it is visible.
    fn place(&self, x: usize, y: usize) -> (r: Option<usize>)
        requires
            self.wf(),
        ensures
            match r {
                Some(at) => visible(self@.info, x as int, y as int) && at == offset(
                    self@.info,
                    x as int,
                    y as int,
                ),
                None => !visible(self@.info, x as int, y as int),
            },
    {
        let i = self.info;
        if x >= i.width || y >= i.height {
            return None;
        }
        proof {
            lemma_offset(i, x as int, y as int);
            assert(i.height * i.stride <= usize::MAX) by (nonlinear_arith)
                requires
                    i.height * i.stride * i.bytes_per_pixel <= usize::MAX,
                    i.bytes_per_pixel >= 1,
                    i.height >= 0,
                    i.stride >= 0,
            ;
            assert((y * i.stride + x) * i.bytes_per_pixel <= usize::MAX);
        }
        let at: usize = (y * i.stride + x) * i.bytes_per_pixel;
        if i.byte_len < i.bytes_per_pixel || at > i.byte_len - i.bytes_per_pixel {
            return None;
        }
        Some(at)
    }

    /// Writes a single pixel; one that is not on the screen is ignored.
    pub fn put_pixel(&mut self, x: usize, y: usize, color: Color)
        requires
            old(self).wf(),
        ensures
            final(self).wf(),
            painted(old(self)@, final(self)@, dot(x as int, y as int, color)),
    {
        let ghost v0 = self@;
        let at: usize = match self.place(x, y) {
            Some(at) => at,
            None => {
                proof {
                    lemma_blank(v0);
                    lemma_same_paint(v0, v0, blank(), dot(x as int, y as int, color));
                }
                return ;
            },
        };
        match self.info.pixel_format {
            PixelFormat::Rgb => {
                self.bytes.set(at, color.r());
                self.bytes.set(at + 1, color.g());
                self.bytes.set(at + 2, color.b());
            },
            PixelFormat::Bgr => {
                self.bytes.set(at, color.b());
                self.bytes.set(at + 1, color.g());
                self.bytes.set(at + 2, color.r());
            },
            PixelFormat::U8 => {
                let lum: u8 = ((color.r() as u32 * 54 + color.g() as u32 * 183 + color.b() as u32
                    * 19) / 256) as u8;
                self.bytes.set(at, lum);
            },
            PixelFormat::Unknown => {
                self.bytes.set(at, color.b());
            },
        }
        proof {
            let v1 = self@;
            let n = stored(v0.info.pixel_format);
            assert forall|k: int| 0 <= k < v0.bytes.len() && !(at <= k < at + n) implies
                #[trigger] v1.bytes[k] == v0.bytes[k] by {}
            lemma_dot(v0, v1, x as int, y as int, color);
        }
    }

    /// Reads back the colour of a pixel; black if it is not on the screen.
    pub fn read_pixel(&self, x: usize, y: usize) -> (r: Color)
        requires
            self.wf(),
        ensures
            r == (if visible(self@.info, x as int, y as int) {
                let at = offset(self@.info, x as int, y as int);
                let b = self@.bytes;
                match self@.info.pixel_format {
                    PixelFormat::Bgr => rgb_s(b[at + 2], b[at + 1], b[at]),
                    PixelFormat::U8 => rgb_s(b[at], b[at], b[at]),
                    _ => rgb_s(b[at], b[at + 1], b[at + 2]),
                }
            } else {
                Color(Color::BLACK)
            }),
    {
        match self.place(x, y) {
            None => Color(Color::BLACK),
            Some(at) => match self.info.pixel_format {
                PixelFormat::Bgr => Color::rgb(
                    self.bytes[at + 2],
                    self.bytes[at + 1],
                    self.bytes[at],
                ),
                PixelFormat::U8 => Color::rgb(self.bytes[at], self.bytes[at], self.bytes[at]),
                _ => Color::rgb(self.bytes[at], self.bytes[at + 1], self.bytes[at + 2]),
            },
        }
    }
}

/// The screen lies in memory as a whole.
pub open spec fn whole(i: FrameBufferInfo) -> bool {
    i.height * i.stride * i.bytes_per_pixel <= i.byte_len
}

/// The bytes of so many rows.
pub open spec fn row_bytes(i: FrameBufferInfo, rows: int) -> int {
    rows * i.stride * i.bytes_per_pixel
}

/// The screen with every row moved up by eight; the last eight stay.
pub open spec fn moved_up(v: ScreenView) -> ScreenView {
    let shift = row_bytes(v.info, 8);
    let total = row_bytes(v.info, v.info.height as int);
    ScreenView {
        bytes: Seq::new(
            v.bytes.len(),
            |k: int|
                if k < total - shift {
                    v.bytes[k + shift]
                } else {
                    v.bytes[k]
                },
        ),
        ..v
    }
}

impl FrameBuffer {
    /// Moves every row up by eight.
    pub fn move_up(&mut self)
        requires
            old(self).wf(),
            whole(old(self)@.info),
            old(self)@.info.height >= 8,
        ensures
            final(self).wf(),
            final(self)@ == moved_up(old(self)@),
    {
        let i = self.info;
        let ghost v0 = self@;
        proof {
            let (h, s, b) = (i.height as int, i.stride as int, i.bytes_per_pixel as int);
            assert(8 * s * b <= h * s * b && 0 <= 8 * s * b && 8 * s <= 8 * s * b && h * s <= h * s
                * b) by (nonlinear_arith)
                requires
                    8 <= h,
                    s >= 0,
                    b >= 1,
            ;
        }
        let shift: usize = 8 * i.stride * i.bytes_per_pixel;
        let total: usize = i.height * i.stride * i.bytes_per_pixel;
        let mut k: usize = 0;
        while k < total - shift
            invariant
                self.info == i,
                v0.info == i,
                shift == row_bytes(i, 8),
                total == row_bytes(i, i.height as int),
                shift <= total <= i.byte_len,
                k <= total - shift,
                v0.bytes.len() == i.byte_len,
                self.bytes@.len() == i.byte_len,
                forall|j: int| 0 <= j < k ==> #[trigger] self.bytes@[j] == v0.bytes[j + shift],
                forall|j: int| k <= j < i.byte_len ==> #[trigger] self.bytes@[j] == v0.bytes[j],
            decreases total - shift - k,
        {
            let b: u8 = self.bytes[k + shift];
            self.bytes.set(k, b);
            k = k + 1;
        }
        assert(self@ =~= moved_up(v0));
    }
}

/// Storing the colour of one pixel paints that pixel.
proof fn lemma_dot(v0: ScreenView, v1: ScreenView, px: int, py: int, c: Color)
    requires
        info_ok(v0.info),
        v0.bytes.len() == v0.info.byte_len,
        v1.info == v0.info,
        v1.bytes.len() == v0.bytes.len(),
        visible(v0.info, px, py),
        pixel(v1, px, py) =~= encoded(v0.info.pixel_format, c),
        forall|k: int|
            0 <= k < v0.bytes.len() && !(offset(v0.info, px, py) <= k < offset(v0.info, px, py)
                + stored(v0.info.pixel_format)) ==> #[trigger] v1.bytes[k] == v0.bytes[k],
    ensures
        painted(v0, v1, dot(px, py, c)),
{
    let i = v0.info;
    let n = stored(i.pixel_format);
    let p = dot(px, py, c);
    assert forall|x: int, y: int| visible(i, x, y) implies #[trigger] pixel(v1, x, y) == (match p(
        x,
        y,
    ) {
        Some(c) => encoded(i.pixel_format, c),
        None => pixel(v0, x, y),
    }) by {
        if (x, y) != (px, py) {
            lemma_offset(i, x, y);
            lemma_apart(i, x, y, px, py);
            assert(pixel(v1, x, y) =~= pixel(v0, x, y));
        }
    }
}

} // verus!
