//! QEMU RAM framebuffer (ramfb) drawing target.
//!
//! ramfb scans out a plain XRGB8888 buffer in memory. The buffer is configured through
//! fw_cfg; drawing is ordinary memory manipulation, clipped to the screen.
use vstd::prelude::*;
use crate::drivers::fw_cfg::{be_bytes, push_be, lemma_be_bytes_len};
use crate::fb::{
    DrawTarget, FbInfo, Point, Rect, in_rect, on_screen, fill_spec, blit_spec, copy_spec,
    blit_len, copy_fits, src_index, intersect_spec, lemma_intersect_contains, lemma_intersect_within, fits_i32,
};

verus! {

/// Width of the framebuffer in pixels.
pub const FB_WIDTH: usize = 1024;

/// Height of the framebuffer in pixels.
pub const FB_HEIGHT: usize = 768;

/// The pixel at `(x, y)` of a row-major buffer with `FB_WIDTH` pixels per row.
pub open spec fn px(s: Seq<u32>, x: int, y: int) -> u32 {
    s[y * 1024 + x]
}

/// Whether `(x, y)` is a pixel of the ramfb screen.
pub open spec fn in_screen(x: int, y: int) -> bool {
    0 <= x < 1024 && 0 <= y < 768
}

/// The geometry of the ramfb screen.
pub open spec fn ramfb_info() -> FbInfo {
    FbInfo { width: 1024, height: 768, stride: 1024 }
}

/// Distinct screen pixels live at distinct buffer indices, all inside the buffer.
proof fn lemma_px_index(x: int, y: int, x2: int, y2: int)
    requires
        in_screen(x, y),
        in_screen(x2, y2),
    ensures
        0 <= y * 1024 + x < 1024 * 768,
        (y * 1024 + x == y2 * 1024 + x2) <==> (x == x2 && y == y2),
{
    assert(0 <= y * 1024 + x < 1024 * 768) by (nonlinear_arith)
        requires in_screen(x, y);
    assert((y * 1024 + x == y2 * 1024 + x2) ==> (x == x2 && y == y2)) by (nonlinear_arith)
        requires in_screen(x, y), in_screen(x2, y2);
}

/// The screen rectangle contains exactly the screen pixels.
proof fn lemma_bounds(bounds: Rect, x: int, y: int)
    requires
        bounds == ramfb_info().rect_spec(),
    ensures
        bounds.left_spec() == 0 && bounds.top_spec() == 0,
        bounds.right_spec() == 1024 && bounds.bottom_spec() == 768,
        in_rect(bounds, x, y) <==> in_screen(x, y),
{
    Rect::lemma_corners(0, 0, 1024, 768, bounds);
}

/// A screen pixel lies in the `n` pixels starting at column `a` of row `row` exactly when it is
/// on that row between those columns.
proof fn lemma_row_range(x: int, y: int, row: int, a: int, n: int)
    requires
        in_screen(x, y),
        0 <= row < 768,
        0 <= a,
        0 <= n,
        a + n <= 1024,
    ensures
        (row * 1024 + a <= y * 1024 + x < row * 1024 + a + n) <==> (y == row && a <= x < a + n),
{
    assert((row * 1024 + a <= y * 1024 + x < row * 1024 + a + n) ==> y == row) by (nonlinear_arith)
        requires in_screen(x, y), 0 <= row < 768, 0 <= a, 0 <= n, a + n <= 1024;
}

/// Copies `n` elements starting at `s` to the `n` elements starting at `d`, reading every
/// element before it is overwritten (the ranges may overlap).
fn copy_within_vec(mem: &mut Vec<u32>, s: usize, d: usize, n: usize)
    requires
        s + n <= old(mem)@.len(),
        d + n <= old(mem)@.len(),
    ensures
        final(mem)@.len() == old(mem)@.len(),
        forall|i: int| 0 <= i < old(mem)@.len() ==> #[trigger] final(mem)@[i] == if d <= i < d + n {
            old(mem)@[s + (i - d)]
        } else {
            old(mem)@[i]
        },
    no_unwind
{
    let ghost old_mem = mem@;
    let len = mem.len();
    if d <= s {
        let mut k: usize = 0;
        while k < n
            invariant
                s + n <= old_mem.len(),
                d + n <= old_mem.len(),
                d <= s,
                k <= n,
                len == old_mem.len(),
                mem@.len() == old_mem.len(),
                forall|i: int| 0 <= i < old_mem.len() ==> #[trigger] mem@[i] == if d <= i < d + k {
                    old_mem[s + (i - d)]
                } else {
                    old_mem[i]
                },
            decreases n - k,
        {
            let v = mem[s + k];
            mem[d + k] = v;
            k += 1;
        }
    } else {
        let mut k: usize = n;
        while k > 0
            invariant
                s + n <= old_mem.len(),
                d + n <= old_mem.len(),
                d > s,
                k <= n,
                len == old_mem.len(),
                mem@.len() == old_mem.len(),
                forall|i: int| 0 <= i < old_mem.len() ==> #[trigger] mem@[i] == if d + k <= i < d + n {
                    old_mem[s + (i - d)]
                } else {
                    old_mem[i]
                },
            decreases k,
        {
            let v = mem[s + k - 1];
            mem[d + k - 1] = v;
            k -= 1;
        }
    }
}

/// The ramfb drawing target: a 1024x768 XRGB8888 pixel buffer.
pub struct RamFb {
    fbmem: Vec<u32>,
}

impl RamFb {
    #[verifier::type_invariant]
    spec fn inv(self) -> bool {
        self.fbmem@.len() == 1024 * 768
    }

    /// The pixel buffer, row-major with `FB_WIDTH` pixels per row.
    pub closed spec fn mem(self) -> Seq<u32> {
        self.fbmem@
    }

    /// Creates a black framebuffer.
    pub fn new() -> (r: RamFb)
        ensures
            r.pixels().dom() == Set::new(|p: (int, int)| in_screen(p.0, p.1)),
            forall|p: (int, int)| in_screen(p.0, p.1) ==> #[trigger] r.pixels()[p] == 0u32,
    {
        let fbmem = vec![0u32; FB_WIDTH * FB_HEIGHT];
        let r = RamFb { fbmem };
        proof {
            assert forall|p: (int, int)| in_screen(p.0, p.1) implies #[trigger] r.pixels()[p] == 0u32 by {
                lemma_px_index(p.0, p.1, p.0, p.1);
            }
            assert(r.pixels().dom() == Set::new(|p: (int, int)| in_screen(p.0, p.1)));
        }
        r
    }

    /// The pixel memory, row-major with `FB_WIDTH` pixels per row, which the device scans out.
    pub fn memory(&self) -> (r: &[u32])
        ensures
            r@ == self.mem(),
            r@.len() == FB_WIDTH * FB_HEIGHT,
    {
        proof { use_type_invariant(self); }
        self.fbmem.as_slice()
    }
}

impl DrawTarget for RamFb {
    open spec fn fb_info(&self) -> FbInfo {
        ramfb_info()
    }

    closed spec fn pixels(&self) -> Map<(int, int), u32> {
        Map::new(|p: (int, int)| in_screen(p.0, p.1), |p: (int, int)| px(self.fbmem@, p.0, p.1))
    }

    /// Drawing goes straight to the device's memory: nothing is ever pending.
    closed spec fn pending(&self) -> Set<(int, int)> {
        Set::empty()
    }

    proof fn lemma_screen(&self) {
    }

    fn info(&self) -> (r: FbInfo) {
        FbInfo { width: FB_WIDTH, height: FB_HEIGHT, stride: FB_WIDTH }
    }

    fn fill_rect(&mut self, rect: Rect, color: u32) {
        proof { use_type_invariant(&*self); }
        let ghost old_mem = self.fbmem@;
        let ghost old_pixels = self.pixels();
        let info = self.info();
        let bounds = info.rect();
        let r = match rect.intersect(bounds) {
            Some(r) => r,
            None => {
                proof {
                    assert forall|p: (int, int)| #[trigger] old_pixels.dom().contains(p) implies
                        !in_rect(rect, p.0, p.1) by {
                        lemma_intersect_contains(rect, bounds, p.0, p.1);
                        lemma_bounds(bounds, p.0, p.1);
                    }
                    assert(self.pixels() == fill_spec(old_pixels, rect, color));
                }
                return;
            },
        };
        proof {
            lemma_intersect_within(rect, bounds);
            lemma_bounds(bounds, 0, 0);
        }
        let left = r.left() as usize;
        let width = r.width() as usize;
        let bottom = r.bottom() as usize;
        let mut y = r.top() as usize;
        while y < bottom
            invariant
                self.fbmem@.len() == 1024 * 768,
                0 <= r.left_spec() && r.right_spec() <= 1024,
                0 <= r.top_spec() && r.bottom_spec() <= 768,
                left == r.left_spec(),
                width == r.right_spec() - r.left_spec(),
                bottom == r.bottom_spec(),
                r.top_spec() <= y <= bottom,
                forall|x: int, yy: int| in_screen(x, yy) ==> #[trigger] px(self.fbmem@, x, yy) == if in_rect(r, x, yy) && yy < y {
                    color
                } else {
                    px(old_mem, x, yy)
                },
            decreases bottom - y,
        {
            let start = y * FB_WIDTH + left;
            let mut k: usize = 0;
            while k < width
                invariant
                    self.fbmem@.len() == 1024 * 768,
                    0 <= r.left_spec() && r.right_spec() <= 1024,
                    0 <= r.top_spec() && r.bottom_spec() <= 768,
                    left == r.left_spec(),
                    width == r.right_spec() - r.left_spec(),
                    bottom == r.bottom_spec(),
                    r.top_spec() <= y < bottom,
                    start == y * 1024 + left,
                    k <= width,
                    forall|x: int, yy: int| in_screen(x, yy) ==> #[trigger] px(self.fbmem@, x, yy) == if in_rect(r, x, yy) && (yy < y || (yy == y && x < left + k)) {
                        color
                    } else {
                        px(old_mem, x, yy)
                    },
                decreases width - k,
            {
                let ghost before = self.fbmem@;
                proof { lemma_px_index(left + k, y as int, left + k, y as int); }
                self.fbmem[start + k] = color;
                proof {
                    assert forall|x: int, yy: int| in_screen(x, yy) implies #[trigger] px(self.fbmem@, x, yy) == if x == left + k && yy == y {
                        color
                    } else {
                        px(before, x, yy)
                    } by {
                        lemma_px_index(x, yy, (left + k) as int, y as int);
                    }
                }
                k += 1;
            }
            y += 1;
        }
        proof {
            assert forall|p: (int, int)| #[trigger] old_pixels.dom().contains(p) implies
                self.pixels()[p] == fill_spec(old_pixels, rect, color)[p] by {
                lemma_intersect_contains(rect, bounds, p.0, p.1);
                lemma_bounds(bounds, p.0, p.1);
                assert(px(self.fbmem@, p.0, p.1) == px(self.fbmem@, p.0, p.1));
            }
            assert(self.pixels() == fill_spec(old_pixels, rect, color));
        }
    }

    fn blit(&mut self, rect: Rect, src: &[u32]) {
        proof { use_type_invariant(&*self); }
        let ghost old_mem = self.fbmem@;
        let ghost old_pixels = self.pixels();
        let info = self.info();
        let bounds = info.rect();
        let clipped = match rect.intersect(bounds) {
            Some(c) => c,
            None => {
                proof {
                    assert forall|p: (int, int)| #[trigger] old_pixels.dom().contains(p) implies
                        !in_rect(rect, p.0, p.1) by {
                        lemma_intersect_contains(rect, bounds, p.0, p.1);
                        lemma_bounds(bounds, p.0, p.1);
                    }
                    assert(self.pixels() == blit_spec(old_pixels, rect, src@));
                }
                return;
            },
        };
        proof {
            lemma_intersect_within(rect, bounds);
            lemma_bounds(bounds, 0, 0);
        }
        // Offset of the clipped region within the (unclipped) source buffer.
        let src_pitch = rect.width() as usize;
        let src_x = (clipped.left() - rect.left()) as usize;
        let src_y = (clipped.top() - rect.top()) as usize;

        let dst_x = clipped.left() as usize;
        let dst_y = clipped.top() as usize;
        let width = clipped.width() as usize;
        let height = clipped.height() as usize;
        let ghost h = rect.height_spec();
        let src_len = src.len();
        let mut row: usize = 0;
        while row < height
            invariant
                self.fbmem@.len() == 1024 * 768,
                0 <= clipped.left_spec() && clipped.right_spec() <= 1024,
                0 <= clipped.top_spec() && clipped.bottom_spec() <= 768,
                rect.left_spec() <= clipped.left_spec() && clipped.right_spec() <= rect.right_spec(),
                rect.top_spec() <= clipped.top_spec() && clipped.bottom_spec() <= rect.bottom_spec(),
                src_pitch == rect.width_spec(),
                h == rect.height_spec(),
                rect.dims_fit(),
                src@.len() == src_pitch * h,
                src@.len() == src_len,
                src_x == clipped.left_spec() - rect.left_spec(),
                src_y == clipped.top_spec() - rect.top_spec(),
                dst_x == clipped.left_spec(),
                dst_y == clipped.top_spec(),
                width == clipped.width_spec(),
                height == clipped.height_spec(),
                row <= height,
                forall|x: int, yy: int| in_screen(x, yy) ==> #[trigger] px(self.fbmem@, x, yy) == if in_rect(clipped, x, yy) && yy < dst_y + row {
                    src@[src_index(rect, x, yy)]
                } else {
                    px(old_mem, x, yy)
                },
            decreases height - row,
        {
            proof {
                let a = (src_y + row) as int;
                let w = src_pitch as int;
                assert(a * w + w <= h * w) by (nonlinear_arith)
                    requires 0 <= a < h, 0 <= w;
                assert(0 <= a * w) by (nonlinear_arith)
                    requires 0 <= a, 0 <= w;
            }
            let s = (src_y + row) * src_pitch + src_x;
            let d = (dst_y + row) * FB_WIDTH + dst_x;
            let mut k: usize = 0;
            while k < width
                invariant
                    self.fbmem@.len() == 1024 * 768,
                    0 <= clipped.left_spec() && clipped.right_spec() <= 1024,
                    0 <= clipped.top_spec() && clipped.bottom_spec() <= 768,
                    rect.left_spec() <= clipped.left_spec() && clipped.right_spec() <= rect.right_spec(),
                    rect.top_spec() <= clipped.top_spec() && clipped.bottom_spec() <= rect.bottom_spec(),
                    src_pitch == rect.width_spec(),
                    src@.len() == src_pitch * h,
                    src@.len() == src_len,
                    src_x == clipped.left_spec() - rect.left_spec(),
                    src_y == clipped.top_spec() - rect.top_spec(),
                    dst_x == clipped.left_spec(),
                    dst_y == clipped.top_spec(),
                    width == clipped.width_spec(),
                    height == clipped.height_spec(),
                    row < height,
                    s == (src_y + row) * src_pitch + src_x,
                    s + width <= src@.len(),
                    d == (dst_y + row) * 1024 + dst_x,
                    k <= width,
                    forall|x: int, yy: int| in_screen(x, yy) ==> #[trigger] px(self.fbmem@, x, yy) == if in_rect(clipped, x, yy) && (yy < dst_y + row || (yy == dst_y + row && x < dst_x + k)) {
                        src@[src_index(rect, x, yy)]
                    } else {
                        px(old_mem, x, yy)
                    },
                decreases width - k,
            {
                let ghost before = self.fbmem@;
                proof { lemma_px_index(dst_x + k, dst_y + row, dst_x + k, dst_y + row); }
                let v = src[s + k];
                self.fbmem[d + k] = v;
                proof {
                    assert(src_index(rect, dst_x + k, dst_y + row) == s + k);
                    assert forall|x: int, yy: int| in_screen(x, yy) implies #[trigger] px(self.fbmem@, x, yy) == if x == dst_x + k && yy == dst_y + row {
                        v
                    } else {
                        px(before, x, yy)
                    } by {
                        lemma_px_index(x, yy, (dst_x + k) as int, (dst_y + row) as int);
                    }
                }
                k += 1;
            }
            row += 1;
        }
        proof {
            assert forall|p: (int, int)| #[trigger] old_pixels.dom().contains(p) implies
                self.pixels()[p] == blit_spec(old_pixels, rect, src@)[p] by {
                lemma_intersect_contains(rect, bounds, p.0, p.1);
                lemma_bounds(bounds, p.0, p.1);
                assert(px(self.fbmem@, p.0, p.1) == px(self.fbmem@, p.0, p.1));
            }
            assert(self.pixels() == blit_spec(old_pixels, rect, src@));
        }
    }

    fn copy_rect(&mut self, src: Rect, dst: Point) {
        proof { use_type_invariant(&*self); }
        let ghost old_mem = self.fbmem@;
        let ghost old_pixels = self.pixels();
        let info = self.info();
        let bounds = info.rect();
        proof { lemma_bounds(bounds, 0, 0); }
        let delta = Point::new(dst.x - src.left(), dst.y - src.top());
        let shifted = bounds.translate(Point::new(-delta.x, -delta.y));
        let ghost dx = delta.x as int;
        let ghost dy = delta.y as int;
        // Keep only the part of `src` that is on-screen *and* whose destination is on-screen.
        let clipped = match src.intersect(bounds) {
            Some(r) => r.intersect(shifted),
            None => None,
        };
        let r = match clipped {
            Some(r) => r,
            None => {
                proof {
                    assert forall|p: (int, int)| #[trigger] old_pixels.dom().contains(p) implies
                        !(old_pixels.dom().contains((p.0 - dx, p.1 - dy)) && in_rect(src, p.0 - dx, p.1 - dy)) by {
                        lemma_intersect_contains(src, bounds, p.0 - dx, p.1 - dy);
                        lemma_bounds(bounds, p.0 - dx, p.1 - dy);
                        if let Some(s1) = intersect_spec(src, bounds) {
                            lemma_intersect_contains(s1, shifted, p.0 - dx, p.1 - dy);
                        }
                    }
                    assert(self.pixels() == copy_spec(old_pixels, src, dst));
                }
                return;
            },
        };
        let ghost s1 = intersect_spec(src, bounds).unwrap();
        proof {
            lemma_intersect_within(src, bounds);
            lemma_intersect_within(s1, shifted);
        }
        let src_x = r.left() as usize;
        let src_y = r.top() as usize;
        let dst_x = (r.left() + delta.x) as usize;
        let dst_y = (r.top() + delta.y) as usize;
        let width = r.width() as usize;
        let height = r.height() as usize;

        // Rows are walked away from the destination so that no row is overwritten before it
        // has been read.
        if dst_y > src_y {
            let mut cur: usize = height;
            while cur > 0
                invariant
                    self.fbmem@.len() == 1024 * 768,
                    0 <= r.left_spec() && r.right_spec() <= 1024,
                    0 <= r.top_spec() && r.bottom_spec() <= 768,
                    0 <= r.left_spec() + dx && r.right_spec() + dx <= 1024,
                    0 <= r.top_spec() + dy && r.bottom_spec() + dy <= 768,
                    src_x == r.left_spec(),
                    src_y == r.top_spec(),
                    dst_x == src_x + dx,
                    dst_y == src_y + dy,
                    dst_y > src_y,
                    width == r.width_spec(),
                    height == r.height_spec(),
                    width > 0,
                    cur <= height,
                    forall|x: int, yy: int| in_screen(x, yy) ==> #[trigger] px(self.fbmem@, x, yy) == if in_rect(r, x - dx, yy - dy) && yy >= dst_y + cur {
                        px(old_mem, x - dx, yy - dy)
                    } else {
                        px(old_mem, x, yy)
                    },
                decreases cur,
            {
                let row = cur - 1;
                let ghost before = self.fbmem@;
                proof {
                    lemma_px_index(src_x as int, src_y + row, src_x as int, src_y + row);
                    lemma_px_index(dst_x as int, dst_y + row, dst_x as int, dst_y + row);
                    lemma_px_index((src_x + width - 1) as int, src_y + row, src_x as int, src_y + row);
                    lemma_px_index((dst_x + width - 1) as int, dst_y + row, dst_x as int, dst_y + row);
                }
                let s = (src_y + row) * FB_WIDTH + src_x;
                let d = (dst_y + row) * FB_WIDTH + dst_x;
                copy_within_vec(&mut self.fbmem, s, d, width);
                proof {
                    assert forall|x: int, yy: int| in_screen(x, yy) implies #[trigger] px(self.fbmem@, x, yy) == if in_rect(r, x - dx, yy - dy) && yy >= dst_y + row {
                        px(old_mem, x - dx, yy - dy)
                    } else {
                        px(old_mem, x, yy)
                    } by {
                        lemma_row_range(x, yy, (dst_y + row) as int, dst_x as int, width as int);
                        lemma_px_index(x, yy, x, yy);
                        let idx = yy * 1024 + x;
                        assert(self.fbmem@[idx] == if d <= idx < d + width {
                            before[s + (idx - d)]
                        } else {
                            before[idx]
                        });
                        if yy == dst_y + row && dst_x <= x < dst_x + width {
                            lemma_px_index(x - dx, yy - dy, x - dx, yy - dy);
                            assert(s + (idx - d) == (yy - dy) * 1024 + (x - dx));
                            assert(px(before, x - dx, yy - dy) == px(old_mem, x - dx, yy - dy));
                            assert(in_rect(r, x - dx, yy - dy));
                            assert(px(self.fbmem@, x, yy) == px(old_mem, x - dx, yy - dy));
                        } else {
                            assert(px(before, x, yy) == px(before, x, yy));
                            assert(px(self.fbmem@, x, yy) == px(before, x, yy));
                        }
                    }
                }
                cur = row;
            }
        } else {
            let mut row: usize = 0;
            while row < height
                invariant
                    self.fbmem@.len() == 1024 * 768,
                    0 <= r.left_spec() && r.right_spec() <= 1024,
                    0 <= r.top_spec() && r.bottom_spec() <= 768,
                    0 <= r.left_spec() + dx && r.right_spec() + dx <= 1024,
                    0 <= r.top_spec() + dy && r.bottom_spec() + dy <= 768,
                    src_x == r.left_spec(),
                    src_y == r.top_spec(),
                    dst_x == src_x + dx,
                    dst_y == src_y + dy,
                    dst_y <= src_y,
                    width == r.width_spec(),
                    height == r.height_spec(),
                    width > 0,
                    row <= height,
                    forall|x: int, yy: int| in_screen(x, yy) ==> #[trigger] px(self.fbmem@, x, yy) == if in_rect(r, x - dx, yy - dy) && yy < dst_y + row {
                        px(old_mem, x - dx, yy - dy)
                    } else {
                        px(old_mem, x, yy)
                    },
                decreases height - row,
            {
                let ghost before = self.fbmem@;
                proof {
                    lemma_px_index(src_x as int, src_y + row, src_x as int, src_y + row);
                    lemma_px_index(dst_x as int, dst_y + row, dst_x as int, dst_y + row);
                    lemma_px_index((src_x + width - 1) as int, src_y + row, src_x as int, src_y + row);
                    lemma_px_index((dst_x + width - 1) as int, dst_y + row, dst_x as int, dst_y + row);
                }
                let s = (src_y + row) * FB_WIDTH + src_x;
                let d = (dst_y + row) * FB_WIDTH + dst_x;
                copy_within_vec(&mut self.fbmem, s, d, width);
                proof {
                    assert forall|x: int, yy: int| in_screen(x, yy) implies #[trigger] px(self.fbmem@, x, yy) == if in_rect(r, x - dx, yy - dy) && yy < dst_y + row + 1 {
                        px(old_mem, x - dx, yy - dy)
                    } else {
                        px(old_mem, x, yy)
                    } by {
                        lemma_row_range(x, yy, (dst_y + row) as int, dst_x as int, width as int);
                        lemma_px_index(x, yy, x, yy);
                        let idx = yy * 1024 + x;
                        assert(self.fbmem@[idx] == if d <= idx < d + width {
                            before[s + (idx - d)]
                        } else {
                            before[idx]
                        });
                        if yy == dst_y + row && dst_x <= x < dst_x + width {
                            lemma_px_index(x - dx, yy - dy, x - dx, yy - dy);
                            assert(s + (idx - d) == (yy - dy) * 1024 + (x - dx));
                            assert(px(before, x - dx, yy - dy) == px(old_mem, x - dx, yy - dy));
                            assert(in_rect(r, x - dx, yy - dy));
                            assert(px(self.fbmem@, x, yy) == px(old_mem, x - dx, yy - dy));
                        } else {
                            assert(px(before, x, yy) == px(before, x, yy));
                            assert(px(self.fbmem@, x, yy) == px(before, x, yy));
                        }
                    }
                }
                row += 1;
            }
        }
        proof {
            assert forall|p: (int, int)| #[trigger] old_pixels.dom().contains(p) implies
                self.pixels()[p] == copy_spec(old_pixels, src, dst)[p] by {
                lemma_intersect_contains(src, bounds, p.0 - dx, p.1 - dy);
                lemma_intersect_contains(s1, shifted, p.0 - dx, p.1 - dy);
                lemma_bounds(bounds, p.0 - dx, p.1 - dy);
                assert(px(self.fbmem@, p.0, p.1) == px(self.fbmem@, p.0, p.1));
            }
            assert(self.pixels() == copy_spec(old_pixels, src, dst));
        }
    }

    fn flush(&mut self, damage: Rect) {
    }
}


/// The DRM fourcc code of the XRGB8888 pixel format ("XR24").
pub const FOURCC_XR24: u32 = 0x3432_5258;

/// Configuration block of the ramfb device, written through fw_cfg.
#[derive(Debug, Clone, Copy, PartialEq, Eq, Structural)]
pub struct RamFbCfg {
    /// Physical address of the framebuffer.
    pub addr: u64,
    /// Fourcc pixel format code.
    pub fourcc: u32,
    /// Flags (reserved, must be 0).
    pub flags: u32,
    /// Width of the framebuffer in pixels.
    pub width: u32,
    /// Height of the framebuffer in pixels.
    pub height: u32,
    /// Bytes per scanline; 0 means width times bytes per pixel.
    pub stride: u32,
}

/// The wire format of a ramfb configuration block: its fields in order, big-endian.
pub open spec fn cfg_bytes(c: RamFbCfg) -> Seq<u8> {
    be_bytes(c.addr as int, 8) + be_bytes(c.fourcc as int, 4) + be_bytes(c.flags as int, 4) + be_bytes(
        c.width as int,
        4,
    ) + be_bytes(c.height as int, 4) + be_bytes(c.stride as int, 4)
}

impl RamFbCfg {
    /// A configuration for a framebuffer at `addr` with the given format and dimensions;
    /// no flags, default stride.
    pub fn new(addr: u64, fourcc: u32, width: u32, height: u32) -> (r: Self)
        ensures
            r == (RamFbCfg { addr, fourcc, flags: 0, width, height, stride: 0 }),
    {
        RamFbCfg { addr, fourcc, flags: 0, width, height, stride: 0 }
    }

    /// The configuration block as the device reads it.
    pub fn to_bytes(&self) -> (r: Vec<u8>)
        ensures
            r@ == cfg_bytes(*self),
            r@.len() == 28,
    {
        let mut out: Vec<u8> = Vec::new();
        push_be(&mut out, self.addr, 8);
        push_be(&mut out, self.fourcc as u64, 4);
        push_be(&mut out, self.flags as u64, 4);
        push_be(&mut out, self.width as u64, 4);
        push_be(&mut out, self.height as u64, 4);
        push_be(&mut out, self.stride as u64, 4);
        proof {
            lemma_be_bytes_len(self.addr as int, 8);
            lemma_be_bytes_len(self.fourcc as int, 4);
            lemma_be_bytes_len(self.flags as int, 4);
            lemma_be_bytes_len(self.width as int, 4);
            lemma_be_bytes_len(self.height as int, 4);
            lemma_be_bytes_len(self.stride as int, 4);
        }
        out
    }
}

/// The configuration that presents this driver's screen: `FB_WIDTH` by `FB_HEIGHT` XRGB8888
/// pixels at physical address `fb_addr`.
pub fn screen_config(fb_addr: u64) -> (r: RamFbCfg)
    ensures
        r == (RamFbCfg { addr: fb_addr, fourcc: FOURCC_XR24, flags: 0, width: 1024, height: 768, stride: 0 }),
{
    RamFbCfg::new(fb_addr, FOURCC_XR24, FB_WIDTH as u32, FB_HEIGHT as u32)
}

} // verus!
