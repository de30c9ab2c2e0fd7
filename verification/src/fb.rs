//! Framebuffer geometry, drawing targets and text rendering.
//!
//! A [`DrawTarget`] is modelled as a map from on-screen coordinates `(x, y)` to XRGB8888
//! colors. Every drawing operation is specified by how it transforms that map.
use vstd::prelude::*;
use vstd::slice::slice_subrange;
use vstd::string::StringSliceAdditionalSpecFns;

verus! {

/// A point in 2D space.
#[derive(Debug, Clone, Copy, PartialEq, Eq, Hash, Structural)]
pub struct Point {
    /// The x-coordinate of the point.
    pub x: i32,
    /// The y-coordinate of the point.
    pub y: i32,
}

impl Point {
    /// The point at the origin (0, 0).
    pub fn zero() -> (r: Point)
        ensures
            r == (Point { x: 0, y: 0 }),
    {
        Point { x: 0, y: 0 }
    }

    /// Creates a new `Point` with the specified coordinates.
    pub fn new(x: i32, y: i32) -> (r: Point)
        ensures
            r == (Point { x, y }),
    {
        Point { x, y }
    }
}

/// A rectangle spanning from its top-left corner (inclusive) to its bottom-right corner
/// (exclusive).
#[derive(Debug, Clone, Copy, PartialEq, Eq, Hash, Structural)]
pub struct Rect {
    tl: Point,
    br: Point,
}

/// Whether `(x, y)` lies inside the half-open rectangle `[left, right) x [top, bottom)`.
pub open spec fn in_rect(r: Rect, x: int, y: int) -> bool {
    r.left_spec() <= x < r.right_spec() && r.top_spec() <= y < r.bottom_spec()
}

/// Whether a value fits in an `i32`.
pub open spec fn fits_i32(v: int) -> bool {
    i32::MIN <= v <= i32::MAX
}

/// The larger of two integers.
pub open spec fn max_int(a: int, b: int) -> int {
    if a >= b { a } else { b }
}

/// The smaller of two integers.
pub open spec fn min_int(a: int, b: int) -> int {
    if a <= b { a } else { b }
}

/// The intersection of two rectangles, `None` when it is empty.
pub open spec fn intersect_spec(a: Rect, b: Rect) -> Option<Rect> {
    let x1 = max_int(a.left_spec(), b.left_spec());
    let y1 = max_int(a.top_spec(), b.top_spec());
    let x2 = min_int(a.right_spec(), b.right_spec());
    let y2 = min_int(a.bottom_spec(), b.bottom_spec());
    if x1 < x2 && y1 < y2 {
        Some(Rect::from_corners(x1 as i32, y1 as i32, x2 as i32, y2 as i32))
    } else {
        None
    }
}

impl Rect {
    /// The left edge.
    pub closed spec fn left_spec(self) -> int {
        self.tl.x as int
    }

    /// The top edge.
    pub closed spec fn top_spec(self) -> int {
        self.tl.y as int
    }

    /// The right edge (exclusive).
    pub closed spec fn right_spec(self) -> int {
        self.br.x as int
    }

    /// The bottom edge (exclusive).
    pub closed spec fn bottom_spec(self) -> int {
        self.br.y as int
    }

    /// The rectangle with the given edges.
    pub closed spec fn from_corners(left: i32, top: i32, right: i32, bottom: i32) -> Rect {
        Rect { tl: Point { x: left, y: top }, br: Point { x: right, y: bottom } }
    }

    /// The edges of `from_corners` are the ones it was given, and a rectangle is determined by
    /// its edges.
    pub proof fn lemma_corners(left: i32, top: i32, right: i32, bottom: i32, r: Rect)
        ensures
            Rect::from_corners(left, top, right, bottom).left_spec() == left,
            Rect::from_corners(left, top, right, bottom).top_spec() == top,
            Rect::from_corners(left, top, right, bottom).right_spec() == right,
            Rect::from_corners(left, top, right, bottom).bottom_spec() == bottom,
            r == Rect::from_corners(
                r.left_spec() as i32,
                r.top_spec() as i32,
                r.right_spec() as i32,
                r.bottom_spec() as i32,
            ),
    {
    }

    /// The width, `right - left`.
    pub open spec fn width_spec(self) -> int {
        self.right_spec() - self.left_spec()
    }

    /// The height, `bottom - top`.
    pub open spec fn height_spec(self) -> int {
        self.bottom_spec() - self.top_spec()
    }

    /// Both dimensions of the rectangle fit in an `i32`.
    pub open spec fn dims_fit(self) -> bool {
        fits_i32(self.width_spec()) && fits_i32(self.height_spec())
    }

    /// Creates a rectangle spanning from `tl` (inclusive) to `br` (exclusive).
    pub fn new(tl: Point, br: Point) -> (r: Rect)
        ensures
            r == Rect::from_corners(tl.x, tl.y, br.x, br.y),
            r.left_spec() == tl.x,
            r.top_spec() == tl.y,
            r.right_spec() == br.x,
            r.bottom_spec() == br.y,
    {
        Rect { tl, br }
    }

    /// Creates a rectangle with its top-left corner at `origin` and the given dimensions.
    pub fn from_size(origin: Point, width: i32, height: i32) -> (r: Rect)
        requires
            fits_i32(origin.x + width),
            fits_i32(origin.y + height),
        ensures
            r.left_spec() == origin.x,
            r.top_spec() == origin.y,
            r.right_spec() == origin.x + width,
            r.bottom_spec() == origin.y + height,
    {
        Rect { tl: origin, br: Point::new(origin.x + width, origin.y + height) }
    }

    /// Returns this rectangle translated by the given offset.
    pub fn translate(self, offset: Point) -> (r: Rect)
        requires
            fits_i32(self.left_spec() + offset.x),
            fits_i32(self.top_spec() + offset.y),
            fits_i32(self.right_spec() + offset.x),
            fits_i32(self.bottom_spec() + offset.y),
        ensures
            r.left_spec() == self.left_spec() + offset.x,
            r.top_spec() == self.top_spec() + offset.y,
            r.right_spec() == self.right_spec() + offset.x,
            r.bottom_spec() == self.bottom_spec() + offset.y,
    {
        Rect {
            tl: Point::new(self.tl.x + offset.x, self.tl.y + offset.y),
            br: Point::new(self.br.x + offset.x, self.br.y + offset.y),
        }
    }

    /// Returns the y-coordinate of the top edge of the rectangle.
    pub fn top(&self) -> (r: i32)
        ensures
            r == self.top_spec(),
    {
        self.tl.y
    }

    /// Returns the x-coordinate of the left edge of the rectangle.
    pub fn left(&self) -> (r: i32)
        ensures
            r == self.left_spec(),
    {
        self.tl.x
    }

    /// Returns the y-coordinate of the bottom edge of the rectangle.
    pub fn bottom(&self) -> (r: i32)
        ensures
            r == self.bottom_spec(),
    {
        self.br.y
    }

    /// Returns the x-coordinate of the right edge of the rectangle.
    pub fn right(&self) -> (r: i32)
        ensures
            r == self.right_spec(),
    {
        self.br.x
    }

    /// Returns the width of the rectangle.
    pub fn width(&self) -> (r: i32)
        requires
            fits_i32(self.width_spec()),
        ensures
            r == self.width_spec(),
    {
        self.br.x - self.tl.x
    }

    /// Returns the height of the rectangle.
    pub fn height(&self) -> (r: i32)
        requires
            fits_i32(self.height_spec()),
        ensures
            r == self.height_spec(),
    {
        self.br.y - self.tl.y
    }

    /// Returns whether the specified point is contained within this rectangle.
    pub fn contains(&self, point: Point) -> (r: bool)
        ensures
            r == in_rect(*self, point.x as int, point.y as int),
    {
        let right = self.br.x;
        let bottom = self.br.y;
        point.x >= self.tl.x && point.x < right && point.y >= self.tl.y && point.y < bottom
    }

    /// Returns the intersection of this rectangle with another rectangle, if they overlap.
    ///
    /// If the rectangles do not overlap, returns `None`.
    pub fn intersect(self, other: Rect) -> (r: Option<Rect>)
        ensures
            r == intersect_spec(self, other),
    {
        let x1 = if self.tl.x >= other.tl.x { self.tl.x } else { other.tl.x };
        let y1 = if self.tl.y >= other.tl.y { self.tl.y } else { other.tl.y };
        let x2 = if self.br.x <= other.br.x { self.br.x } else { other.br.x };
        let y2 = if self.br.y <= other.br.y { self.br.y } else { other.br.y };

        if x1 < x2 && y1 < y2 {
            Some(Rect { tl: Point::new(x1, y1), br: Point::new(x2, y2) })
        } else {
            None
        }
    }
}

/// A point lies in the intersection of two rectangles exactly when it lies in both, and the
/// intersection is empty exactly when no point lies in both.
pub proof fn lemma_intersect_contains(a: Rect, b: Rect, x: int, y: int)
    ensures
        intersect_spec(a, b) matches Some(r) ==> (in_rect(r, x, y) <==> in_rect(a, x, y)
            && in_rect(b, x, y)),
        intersect_spec(a, b) is None ==> !(in_rect(a, x, y) && in_rect(b, x, y)),
{
    Rect::lemma_corners(0, 0, 0, 0, a);
    let x1 = max_int(a.left_spec(), b.left_spec());
    let y1 = max_int(a.top_spec(), b.top_spec());
    let x2 = min_int(a.right_spec(), b.right_spec());
    let y2 = min_int(a.bottom_spec(), b.bottom_spec());
    assert(fits_i32(x1) && fits_i32(y1) && fits_i32(x2) && fits_i32(y2)) by {
        Rect::lemma_edges_fit(a);
        Rect::lemma_edges_fit(b);
    }
    Rect::lemma_corners(x1 as i32, y1 as i32, x2 as i32, y2 as i32, a);
}

/// Intersecting two rectangles does not depend on their order.
pub proof fn lemma_intersect_commutes(a: Rect, b: Rect)
    ensures
        intersect_spec(a, b) == intersect_spec(b, a),
{
}

/// The intersection lies within both rectangles.
pub proof fn lemma_intersect_within(a: Rect, b: Rect)
    ensures
        intersect_spec(a, b) matches Some(r) ==> {
            &&& a.left_spec() <= r.left_spec() && r.right_spec() <= a.right_spec()
            &&& a.top_spec() <= r.top_spec() && r.bottom_spec() <= a.bottom_spec()
            &&& b.left_spec() <= r.left_spec() && r.right_spec() <= b.right_spec()
            &&& b.top_spec() <= r.top_spec() && r.bottom_spec() <= b.bottom_spec()
            &&& r.width_spec() > 0 && r.height_spec() > 0
        },
{
    let x1 = max_int(a.left_spec(), b.left_spec());
    let y1 = max_int(a.top_spec(), b.top_spec());
    let x2 = min_int(a.right_spec(), b.right_spec());
    let y2 = min_int(a.bottom_spec(), b.bottom_spec());
    Rect::lemma_edges_fit(a);
    Rect::lemma_edges_fit(b);
    Rect::lemma_corners(x1 as i32, y1 as i32, x2 as i32, y2 as i32, a);
}

impl Rect {
    /// Every edge of a rectangle is an `i32`.
    pub proof fn lemma_edges_fit(r: Rect)
        ensures
            fits_i32(r.left_spec()),
            fits_i32(r.top_spec()),
            fits_i32(r.right_spec()),
            fits_i32(r.bottom_spec()),
    {
    }
}

/// A pixel in the framebuffer, consisting of a point and a color.
///
/// The color is represented as a 32-bit unsigned integer in XRGB8888 format.
#[derive(Debug, Clone, Copy, PartialEq, Eq, Hash, Structural)]
pub struct Pixel(pub Point, pub u32);

impl Pixel {
    /// Creates a new `Pixel` with the specified coordinates and color.
    pub fn new(x: i32, y: i32, color: u32) -> (r: Pixel)
        ensures
            r == Pixel(Point { x, y }, color),
    {
        Pixel(Point::new(x, y), color)
    }

    /// Returns the x-coordinate of the pixel.
    pub fn x(&self) -> (r: i32)
        ensures
            r == self.0.x,
    {
        self.0.x
    }

    /// Returns the y-coordinate of the pixel.
    pub fn y(&self) -> (r: i32)
        ensures
            r == self.0.y,
    {
        self.0.y
    }

    /// Returns the color of the pixel.
    pub fn color(&self) -> (r: u32)
        ensures
            r == self.1,
    {
        self.1
    }
}

/// Framebuffer geometry.
#[derive(Debug, Clone, Copy, PartialEq, Eq, Hash, Structural)]
pub struct FbInfo {
    /// The width of the framebuffer in pixels.
    pub width: usize,
    /// The height of the framebuffer in pixels.
    pub height: usize,
    /// The number of pixels per scanline.
    ///
    /// This is at least [`width`](Self::width), but may be larger when scanlines are padded.
    /// The pixel at `(x, y)` lives at index `y * stride + x`.
    pub stride: usize,
}

impl FbInfo {
    /// The rectangle covering the whole framebuffer.
    pub open spec fn rect_spec(self) -> Rect {
        Rect::from_corners(0, 0, self.width as i32, self.height as i32)
    }

    /// Returns the rectangle representing the entire framebuffer.
    pub fn rect(&self) -> (r: Rect)
        ensures
            r == self.rect_spec(),
    {
        let r = Rect::from_size(Point::zero(), self.width as i32, self.height as i32);
        proof {
            Rect::lemma_corners(0, 0, self.width as i32, self.height as i32, r);
        }
        r
    }
}


/// A map from on-screen coordinates to XRGB8888 colors.
///
/// Whether `p` lies on a screen of the given geometry.
pub open spec fn on_screen(info: FbInfo, p: (int, int)) -> bool {
    0 <= p.0 < info.width && 0 <= p.1 < info.height
}

/// The pixels after filling `rect` with `color`: points of the screen inside `rect` take the
/// color, all others keep theirs.
pub open spec fn fill_spec(m: Map<(int, int), u32>, rect: Rect, color: u32) -> Map<(int, int), u32> {
    Map::new(
        |p: (int, int)| m.dom().contains(p),
        |p: (int, int)|
            if in_rect(rect, p.0, p.1) {
                color
            } else {
                m[p]
            },
    )
}

/// Index, in a row-major source buffer covering `rect`, of the pixel at `(x, y)`.
pub open spec fn src_index(rect: Rect, x: int, y: int) -> int {
    (y - rect.top_spec()) * rect.width_spec() + (x - rect.left_spec())
}

/// The pixels after copying the row-major buffer `src` into `rect`: points of the screen inside
/// `rect` take the corresponding source pixel, all others keep theirs.
pub open spec fn blit_spec(m: Map<(int, int), u32>, rect: Rect, src: Seq<u32>) -> Map<(int, int), u32> {
    Map::new(
        |p: (int, int)| m.dom().contains(p),
        |p: (int, int)|
            if in_rect(rect, p.0, p.1) {
                src[src_index(rect, p.0, p.1)]
            } else {
                m[p]
            },
    )
}

/// The number of source pixels that a blit into `rect` consumes.
pub open spec fn blit_len(rect: Rect) -> int {
    max_int(rect.width_spec(), 0) * max_int(rect.height_spec(), 0)
}

/// The pixels after copying the region `src` so that its top-left corner lands on `dst`:
/// a screen point takes the old color of the point it is copied from, when that point is on
/// screen and inside `src`; every other point keeps its color.
pub open spec fn copy_spec(m: Map<(int, int), u32>, src: Rect, dst: Point) -> Map<(int, int), u32> {
    let dx = dst.x - src.left_spec();
    let dy = dst.y - src.top_spec();
    Map::new(
        |p: (int, int)| m.dom().contains(p),
        |p: (int, int)|
            if m.dom().contains((p.0 - dx, p.1 - dy)) && in_rect(src, p.0 - dx, p.1 - dy) {
                m[(p.0 - dx, p.1 - dy)]
            } else {
                m[p]
            },
    )
}

/// The offsets that `copy_rect` computes, and the screen bounds shifted back by them, fit in
/// an `i32`.
pub open spec fn copy_fits(info: FbInfo, src: Rect, dst: Point) -> bool {
    let dx = dst.x - src.left_spec();
    let dy = dst.y - src.top_spec();
    &&& fits_i32(dx) && fits_i32(dy) && fits_i32(-dx) && fits_i32(-dy)
    &&& fits_i32((info.width as i32) - dx) && fits_i32((info.height as i32) - dy)
}

/// A framebuffer device with a specific geometry and pixel format.
///
/// Its contents are modelled by [`DrawTarget::pixels`], a map defined on exactly the points
/// of the screen.
pub trait DrawTarget {
    /// The geometry of the framebuffer.
    spec fn fb_info(&self) -> FbInfo;

    /// The color of every on-screen point.
    spec fn pixels(&self) -> Map<(int, int), u32>;

    /// The points whose drawing has not yet reached the display.
    spec fn pending(&self) -> Set<(int, int)>;

    /// The pixel map covers exactly the screen, and the screen's dimensions fit in an `i32`.
    proof fn lemma_screen(&self)
        ensures
            forall|p: (int, int)| #[trigger] self.pixels().dom().contains(p) <==> on_screen(self.fb_info(), p),
            self.fb_info().width <= i32::MAX,
            self.fb_info().height <= i32::MAX,
    ;

    /// Returns information about the framebuffer, including its dimensions and pixel format.
    fn info(&self) -> (r: FbInfo)
        ensures
            r == self.fb_info(),
    ;

    /// Fills the specified rectangle with the given color.
    fn fill_rect(&mut self, rect: Rect, color: u32)
        ensures
            final(self).fb_info() == old(self).fb_info(),
            final(self).pixels() == fill_spec(old(self).pixels(), rect, color),
    ;

    /// Fills the specified rectangle with pixel data from the provided source slice, which
    /// holds one pixel per pixel of `rect`, row by row.
    fn blit(&mut self, rect: Rect, src: &[u32])
        requires
            rect.dims_fit(),
            src@.len() == blit_len(rect),
        ensures
            final(self).fb_info() == old(self).fb_info(),
            final(self).pixels() == blit_spec(old(self).pixels(), rect, src@),
    ;

    /// Copies a rectangular region of pixels from one location to another within the
    /// framebuffer.
    fn copy_rect(&mut self, src: Rect, dst: Point)
        requires
            copy_fits(old(self).fb_info(), src, dst),
        ensures
            final(self).fb_info() == old(self).fb_info(),
            final(self).pixels() == copy_spec(old(self).pixels(), src, dst),
    ;

    /// Flushes pending drawing operations affecting the specified region to the framebuffer.
    fn flush(&mut self, damage: Rect)
        ensures
            final(self).fb_info() == old(self).fb_info(),
            final(self).pixels() == old(self).pixels(),
            forall|p: (int, int)| #[trigger] final(self).pending().contains(p) ==> old(self).pending().contains(p)
                && !in_rect(damage, p.0, p.1),
    ;
}

/// A [`DrawTarget`]-backed framebuffer that provides higher-level drawing operations, such as
/// geometry and text rendering.
pub struct Framebuffer<T> {
    target: T,
}

impl<T: DrawTarget> Framebuffer<T> {
    /// The wrapped drawing target.
    pub closed spec fn target_spec(self) -> T {
        self.target
    }

    /// Creates a new `Framebuffer` that wraps the specified [`DrawTarget`].
    pub fn new(target: T) -> (r: Self)
        ensures
            r.target_spec() == target,
    {
        Framebuffer { target }
    }

    /// Returns the wrapped drawing target.
    pub fn target(&self) -> (r: &T)
        ensures
            *r == self.target_spec(),
    {
        &self.target
    }

    /// Returns the area of the framebuffer as a rectangle.
    pub fn rect(&self) -> (r: Rect)
        ensures
            r == self.target_spec().fb_info().rect_spec(),
    {
        self.target.info().rect()
    }

    /// Flushes any pending drawing operations to the framebuffer: afterwards no point of the
    /// framebuffer's area is pending.
    pub fn flush(&mut self)
        ensures
            final(self).target_spec().fb_info() == old(self).target_spec().fb_info(),
            final(self).target_spec().pixels() == old(self).target_spec().pixels(),
            forall|p: (int, int)| #[trigger] final(self).target_spec().pending().contains(p) ==> old(
                self,
            ).target_spec().pending().contains(p) && !in_rect(old(self).target_spec().fb_info().rect_spec(), p.0, p.1),
    {
        let r = self.rect();
        self.target.flush(r);
    }

    /// Clears the framebuffer with the specified color.
    pub fn clear(&mut self, color: u32)
        ensures
            final(self).target_spec().fb_info() == old(self).target_spec().fb_info(),
            final(self).target_spec().pixels() == fill_spec(
                old(self).target_spec().pixels(),
                old(self).target_spec().fb_info().rect_spec(),
                color,
            ),
    {
        let r = self.rect();
        self.target.fill_rect(r, color);
    }

    /// Draws a pixel at the specified coordinates with the given color.
    pub fn draw_pixel(&mut self, px: Pixel)
        requires
            fits_i32(px.0.x + 1),
            fits_i32(px.0.y + 1),
        ensures
            final(self).target_spec().fb_info() == old(self).target_spec().fb_info(),
            final(self).target_spec().pixels() == blit_spec(
                old(self).target_spec().pixels(),
                Rect::from_corners(px.0.x, px.0.y, (px.0.x + 1) as i32, (px.0.y + 1) as i32),
                seq![px.1],
            ),
    {
        let r = Rect::from_size(px.0, 1, 1);
        let mut buf: Vec<u32> = Vec::new();
        buf.push(px.1);
        proof {
            Rect::lemma_corners(px.0.x, px.0.y, (px.0.x + 1) as i32, (px.0.y + 1) as i32, r);
            assert(buf@ == seq![px.1]);
            assert(r.width_spec() == 1 && r.height_spec() == 1);
            assert(max_int(r.width_spec(), 0) * max_int(r.height_spec(), 0) == 1) by (nonlinear_arith)
                requires r.width_spec() == 1 && r.height_spec() == 1;
        }
        self.target.blit(r, buf.as_slice());
    }
}


/// The font holds a glyph for `ch`: glyphs of `h` bytes are stored back to back, indexed by
/// character code.
pub open spec fn has_glyph(font: Seq<u8>, h: int, ch: u8) -> bool {
    (ch + 1) * h <= font.len()
}

/// The bitmap rows of the glyph for `ch`.
pub open spec fn glyph_of(font: Seq<u8>, h: int, ch: u8) -> Seq<u8> {
    font.subrange(ch * h, ch * h + h)
}

/// Whether column `col` (0 is leftmost) of a glyph row is set; the most significant bit is the
/// leftmost pixel.
pub open spec fn glyph_bit(row: u8, col: int) -> bool {
    (row >> ((7 - col) as u8)) & 1u8 == 1u8
}

/// The 8-pixel-wide, row-major image of a glyph: set bits take `color`, others are 0.
pub open spec fn glyph_pixels(g: Seq<u8>, color: u32) -> Seq<u32> {
    Seq::new(
        (8 * g.len()) as nat,
        |i: int|
            if glyph_bit(g[i / 8], i % 8) {
                color
            } else {
                0u32
            },
    )
}

/// The pixels after drawing the glyph for `ch` with its top-left corner at `p`; unchanged when
/// the font has no such glyph.
pub open spec fn glyph_draw_spec(
    m: Map<(int, int), u32>,
    font: Seq<u8>,
    h: int,
    p: Point,
    ch: u8,
    color: u32,
) -> Map<(int, int), u32> {
    if has_glyph(font, h, ch) {
        blit_spec(
            m,
            Rect::from_corners(p.x, p.y, (p.x + 8) as i32, (p.y + h) as i32),
            glyph_pixels(glyph_of(font, h, ch), color),
        )
    } else {
        m
    }
}

/// The pixels after drawing `bytes` with the cursor at `(cx, cy)`: a newline moves the cursor to
/// the start of the next line, a carriage return to the start of the current one, and any
/// other byte draws its glyph and advances the cursor by one glyph width.
pub open spec fn text_spec(
    m: Map<(int, int), u32>,
    font: Seq<u8>,
    h: int,
    origin: Point,
    cx: int,
    cy: int,
    bytes: Seq<u8>,
    color: u32,
) -> Map<(int, int), u32>
    decreases bytes.len(),
{
    if bytes.len() == 0 {
        m
    } else {
        let c = bytes[0];
        let rest = bytes.subrange(1, bytes.len() as int);
        if c == 10 {
            text_spec(m, font, h, origin, origin.x as int, cy + h, rest, color)
        } else if c == 13 {
            text_spec(m, font, h, origin, origin.x as int, cy, rest, color)
        } else {
            text_spec(
                glyph_draw_spec(m, font, h, Point { x: cx as i32, y: cy as i32 }, c, color),
                font,
                h,
                origin,
                cx + 8,
                cy,
                rest,
                color,
            )
        }
    }
}

/// Every cursor position reached while drawing `bytes` from `(cx, cy)`, and every glyph
/// rectangle drawn, fits in `i32` coordinates.
pub open spec fn text_fits(font: Seq<u8>, h: int, origin: Point, cx: int, cy: int, bytes: Seq<u8>) -> bool
    decreases bytes.len(),
{
    if bytes.len() == 0 {
        true
    } else {
        let c = bytes[0];
        let rest = bytes.subrange(1, bytes.len() as int);
        if c == 10 {
            fits_i32(cy + h) && text_fits(font, h, origin, origin.x as int, cy + h, rest)
        } else if c == 13 {
            text_fits(font, h, origin, origin.x as int, cy, rest)
        } else {
            &&& fits_i32(cx + 8)
            &&& has_glyph(font, h, c) ==> fits_i32(cy + h)
            &&& text_fits(font, h, origin, cx + 8, cy, rest)
        }
    }
}

/// Where the cursor stands before byte `i` of `bytes` is drawn, starting at `(cx, cy)`: a
/// newline moves it to the start of the next line, a carriage return to the start of the
/// current line, and any other byte one glyph to the right.
pub open spec fn text_cursor(h: int, origin: Point, cx: int, cy: int, bytes: Seq<u8>, i: int) -> (int, int)
    decreases i,
{
    if i <= 0 {
        (cx, cy)
    } else {
        let prev = text_cursor(h, origin, cx, cy, bytes, i - 1);
        let c = bytes[i - 1];
        if c == 10 {
            (origin.x as int, prev.1 + h)
        } else if c == 13 {
            (origin.x as int, prev.1)
        } else {
            (prev.0 + 8, prev.1)
        }
    }
}

/// The target was asked to blit glyph `c` of `font` in `color` at `(x, y)`: the glyph's
/// rectangle and pixels.
pub open spec fn glyph_blitted<T: DrawTarget>(font: Seq<u8>, h: int, x: int, y: int, c: u8, color: u32) -> bool {
    exists|t: &mut T, rect: Rect, src: &[u32]|
        #[trigger] call_ensures(T::blit, (t, rect, src), ()) && rect == Rect::from_corners(
            x as i32,
            y as i32,
            (x + 8) as i32,
            (y + h) as i32,
        ) && src@ == glyph_pixels(glyph_of(font, h, c), color)
}

/// A font for rendering text on a framebuffer.
///
/// Glyphs are 8 pixels wide and `char_height` rows high; each row is one byte.
pub struct FramebufferFont<'a> {
    font: &'a [u8],
    char_height: usize,
}

/// `(c + 1) * h` splits into the glyph's start and length.
proof fn lemma_glyph_end(c: int, h: int)
    ensures
        (c + 1) * h == c * h + h,
{
    assert((c + 1) * h == c * h + h) by (nonlinear_arith);
}

impl<'a> FramebufferFont<'a> {
    /// The width of every glyph in pixels.
    pub const CHAR_WIDTH: usize = 8;

    /// The font data.
    pub closed spec fn font_spec(self) -> Seq<u8> {
        self.font@
    }

    /// The number of rows of every glyph.
    pub closed spec fn char_height_spec(self) -> int {
        self.char_height as int
    }

    /// Creates a new `FramebufferFont` with the specified font data and character height.
    ///
    /// Each character is represented by `char_height` bytes, one per row, stored one after
    /// the other and indexed by the character code.
    pub fn new(font: &'a [u8], char_height: usize) -> (r: Self)
        ensures
            r.font_spec() == font@,
            r.char_height_spec() == char_height,
    {
        FramebufferFont { font, char_height }
    }

    /// Returns the number of rows of every glyph.
    pub fn char_height(&self) -> (r: usize)
        ensures
            r == self.char_height_spec(),
    {
        self.char_height
    }

    /// Returns the glyph bitmap for the specified character, or `None` if the character is not
    /// supported.
    pub fn glyph(&self, ch: u8) -> (r: Option<&[u8]>)
        requires
            (ch + 1) * self.char_height_spec() <= usize::MAX,
        ensures
            r is Some <==> has_glyph(self.font_spec(), self.char_height_spec(), ch),
            r matches Some(g) ==> g@ == glyph_of(self.font_spec(), self.char_height_spec(), ch),
    {
        let index = ch as usize;
        let glyph_size = self.char_height;
        proof {
            lemma_glyph_end(index as int, glyph_size as int);
            assert(0 <= index * glyph_size) by (nonlinear_arith);
        }
        let start = index * glyph_size;
        let end = start + glyph_size;

        if end <= self.font.len() {
            Some(slice_subrange(self.font, start, end))
        } else {
            None
        }
    }

    /// Draws a single character glyph at the specified point with the given color on the
    /// provided surface.
    pub fn draw_glyph<T: DrawTarget>(&self, target: &mut T, p: Point, ch: u8, color: u32)
        requires
            self.char_height_spec() <= 16,
            has_glyph(self.font_spec(), self.char_height_spec(), ch) ==> fits_i32(p.x + 8)
                && fits_i32(p.y + self.char_height_spec()),
        ensures
            final(target).fb_info() == old(target).fb_info(),
            final(target).pixels() == glyph_draw_spec(
                old(target).pixels(),
                self.font_spec(),
                self.char_height_spec(),
                p,
                ch,
                color,
            ),
            has_glyph(self.font_spec(), self.char_height_spec(), ch) ==> glyph_blitted::<T>(
                self.font_spec(),
                self.char_height_spec(),
                p.x as int,
                p.y as int,
                ch,
                color,
            ),
    {
        proof {
            let c = ch as int;
            let hh = self.char_height_spec();
            assert((c + 1) * hh <= 256 * 16) by (nonlinear_arith)
                requires
                    0 <= c < 256,
                    0 <= hh <= 16,
            ;
            lemma_glyph_end(c, hh);
        }
        if let Some(glyph) = self.glyph(ch) {
            let h = self.char_height;
            let n = Self::CHAR_WIDTH * h;
            let ghost pix = glyph_pixels(glyph@, color);
            let mut buf: Vec<u32> = Vec::new();
            while buf.len() < n
                invariant
                    n == 8 * h,
                    buf.len() <= n,
                    forall|i: int| 0 <= i < buf.len() ==> buf@[i] == 0u32,
                decreases n - buf.len(),
            {
                buf.push(0);
            }
            let mut row: usize = 0;
            while row < glyph.len()
                invariant
                    glyph@.len() == h,
                    h <= 16,
                    n == 8 * h,
                    row <= h,
                    buf.len() == n,
                    pix == glyph_pixels(glyph@, color),
                    forall|i: int| 0 <= i < 8 * row ==> buf@[i] == pix[i],
                    forall|i: int| 8 * row <= i < n ==> buf@[i] == 0u32,
                decreases h - row,
            {
                let row_data = glyph[row];
                let mut col: usize = 0;
                while col < Self::CHAR_WIDTH
                    invariant
                        glyph@.len() == h,
                        row < h,
                        h <= 16,
                        n == 8 * h,
                        col <= 8,
                        buf.len() == n,
                        row_data == glyph@[row as int],
                        pix == glyph_pixels(glyph@, color),
                        forall|i: int| 0 <= i < 8 * row + col ==> buf@[i] == pix[i],
                        forall|i: int| 8 * row + col <= i < n ==> buf@[i] == 0u32,
                    decreases 8 - col,
                {
                    let k = row * 8 + col;
                    let shift: u8 = (7 - col) as u8;
                    assert(k / 8 == row && k % 8 == col);
                    if (row_data >> shift) & 1 == 1 {
                        buf.set(k, color);
                    }
                    col += 1;
                }
                row += 1;
            }
            assert(buf@ == pix);
            let r = Rect::from_size(p, Self::CHAR_WIDTH as i32, h as i32);
            proof {
                Rect::lemma_corners(p.x, p.y, (p.x + 8) as i32, (p.y + h) as i32, r);
            }
            target.blit(r, buf.as_slice());
        }
    }
}

impl<T: DrawTarget> Framebuffer<T> {
    /// Draws a string of text at the specified point with the given color using the provided
    /// font.
    ///
    /// A newline moves the cursor down to the start of the next line; a carriage return moves
    /// it back to the start of the current line.
    pub fn draw_text(&mut self, font: &FramebufferFont, p: Point, text: &str, color: u32)
        requires
            font.char_height_spec() <= 16,
            text_fits(font.font_spec(), font.char_height_spec(), p, p.x as int, p.y as int, text.spec_bytes()),
        ensures
            final(self).target_spec().fb_info() == old(self).target_spec().fb_info(),
            final(self).target_spec().pixels() == text_spec(
                old(self).target_spec().pixels(),
                font.font_spec(),
                font.char_height_spec(),
                p,
                p.x as int,
                p.y as int,
                text.spec_bytes(),
                color,
            ),
            forall|i: int|
                0 <= i < text.spec_bytes().len() && text.spec_bytes()[i] != 10 && text.spec_bytes()[i] != 13
                    && has_glyph(font.font_spec(), font.char_height_spec(), text.spec_bytes()[i]) ==> #[trigger] glyph_blitted::<T>(
                    font.font_spec(),
                    font.char_height_spec(),
                    text_cursor(font.char_height_spec(), p, p.x as int, p.y as int, text.spec_bytes(), i).0,
                    text_cursor(font.char_height_spec(), p, p.x as int, p.y as int, text.spec_bytes(), i).1,
                    text.spec_bytes()[i],
                    color,
                ),
    {
        let bytes = text.as_bytes();
        let ghost fnt = font.font_spec();
        let ghost h = font.char_height_spec();
        let ghost goal = text_spec(self.target.pixels(), fnt, h, p, p.x as int, p.y as int, bytes@, color);
        let ghost info = self.target.fb_info();
        let mut cursor_x = p.x;
        let mut cursor_y = p.y;
        let mut i: usize = 0;
        assert(bytes@.subrange(0, bytes@.len() as int) == bytes@);
        while i < bytes.len()
            invariant
                i <= bytes@.len(),
                h == font.char_height_spec(),
                fnt == font.font_spec(),
                h <= 16,
                self.target.fb_info() == info,
                text_fits(fnt, h, p, cursor_x as int, cursor_y as int, bytes@.subrange(i as int, bytes@.len() as int)),
                text_spec(self.target.pixels(), fnt, h, p, cursor_x as int, cursor_y as int,
                    bytes@.subrange(i as int, bytes@.len() as int), color) == goal,
                bytes@ == text.spec_bytes(),
                (cursor_x as int, cursor_y as int) == text_cursor(h, p, p.x as int, p.y as int, bytes@, i as int),
                forall|j: int|
                    0 <= j < i && bytes@[j] != 10 && bytes@[j] != 13 && has_glyph(fnt, h, bytes@[j]) ==> #[trigger] glyph_blitted::<T>(
                        fnt,
                        h,
                        text_cursor(h, p, p.x as int, p.y as int, bytes@, j).0,
                        text_cursor(h, p, p.x as int, p.y as int, bytes@, j).1,
                        bytes@[j],
                        color,
                    ),
            decreases bytes@.len() - i,
        {
            let ch = bytes[i];
            let ghost rest = bytes@.subrange(i as int, bytes@.len() as int);
            assert(rest.subrange(1, rest.len() as int) == bytes@.subrange(i + 1, bytes@.len() as int));
            assert(rest[0] == ch);
            if ch == 10 {
                cursor_x = p.x;
                cursor_y = cursor_y + font.char_height() as i32;
            } else if ch == 13 {
                cursor_x = p.x;
            } else {
                font.draw_glyph(&mut self.target, Point::new(cursor_x, cursor_y), ch, color);
                cursor_x = cursor_x + FramebufferFont::CHAR_WIDTH as i32;
            }
            i += 1;
        }
        assert(bytes@.subrange(i as int, bytes@.len() as int).len() == 0);
    }
}

} // verus!
