use rv6::drivers::ramfb::{RamFb, FB_HEIGHT, FB_WIDTH};
use rv6::fb::{DrawTarget, FbInfo, Framebuffer, FramebufferFont, Pixel, Point, Rect};

fn px(fb: &RamFb, x: usize, y: usize) -> u32 {
    fb.memory()[y * FB_WIDTH + x]
}

#[test]
fn rect_accessors() {
    let r = Rect::new(Point::new(1, 2), Point::new(11, 7));
    assert_eq!(r.left(), 1);
    assert_eq!(r.top(), 2);
    assert_eq!(r.right(), 11);
    assert_eq!(r.bottom(), 7);
    assert_eq!(r.width(), 10);
    assert_eq!(r.height(), 5);
    let s = Rect::from_size(Point::new(-3, 4), 5, 6);
    assert_eq!((s.left(), s.top(), s.right(), s.bottom()), (-3, 4, 2, 10));
    let t = s.translate(Point::new(10, -4));
    assert_eq!((t.left(), t.top(), t.right(), t.bottom()), (7, 0, 12, 6));
}

#[test]
fn rect_contains_is_half_open() {
    let r = Rect::new(Point::new(0, 0), Point::new(4, 3));
    assert!(r.contains(Point::new(0, 0)));
    assert!(r.contains(Point::new(3, 2)));
    assert!(!r.contains(Point::new(4, 2)));
    assert!(!r.contains(Point::new(3, 3)));
    assert!(!r.contains(Point::new(-1, 0)));
}

#[test]
fn rect_intersection() {
    let a = Rect::new(Point::new(0, 0), Point::new(10, 10));
    let b = Rect::new(Point::new(5, -5), Point::new(20, 7));
    let i = a.intersect(b).unwrap();
    assert_eq!((i.left(), i.top(), i.right(), i.bottom()), (5, 0, 10, 7));
    assert_eq!(b.intersect(a), Some(i));
    let c = Rect::new(Point::new(10, 0), Point::new(12, 5));
    assert_eq!(a.intersect(c), None);
    for x in -2..22 {
        for y in -7..12 {
            let p = Point::new(x, y);
            assert_eq!(i.contains(p), a.contains(p) && b.contains(p));
        }
    }
}

#[test]
fn pixel_and_info() {
    let p = Pixel::new(3, -4, 0x00ff_00ff);
    assert_eq!((p.x(), p.y(), p.color()), (3, -4, 0x00ff_00ff));
    assert_eq!(Point::zero(), Point::new(0, 0));
    let info = FbInfo { width: 640, height: 480, stride: 640 };
    let r = info.rect();
    assert_eq!((r.left(), r.top(), r.right(), r.bottom()), (0, 0, 640, 480));
}

#[test]
fn ramfb_fill_is_clipped() {
    let mut fb = RamFb::new();
    assert_eq!(fb.info(), FbInfo { width: FB_WIDTH, height: FB_HEIGHT, stride: FB_WIDTH });
    fb.fill_rect(Rect::new(Point::new(-5, -5), Point::new(3, 2)), 7);
    assert_eq!(px(&fb, 0, 0), 7);
    assert_eq!(px(&fb, 2, 1), 7);
    assert_eq!(px(&fb, 3, 1), 0);
    assert_eq!(px(&fb, 2, 2), 0);
    fb.fill_rect(Rect::new(Point::new(1020, 760), Point::new(2000, 2000)), 9);
    assert_eq!(px(&fb, 1023, 767), 9);
    assert_eq!(px(&fb, 1019, 767), 0);
    // An off-screen rectangle changes nothing.
    fb.fill_rect(Rect::new(Point::new(2000, 0), Point::new(3000, 10)), 5);
    assert!(fb.memory().iter().all(|&c| c == 0 || c == 7 || c == 9));
}

#[test]
fn ramfb_blit_reads_clipped_source() {
    let mut fb = RamFb::new();
    // 3x2 source placed partly off the left edge.
    let src = [1, 2, 3, 4, 5, 6];
    fb.blit(Rect::from_size(Point::new(-1, 0), 3, 2), &src);
    assert_eq!(px(&fb, 0, 0), 2);
    assert_eq!(px(&fb, 1, 0), 3);
    assert_eq!(px(&fb, 0, 1), 5);
    assert_eq!(px(&fb, 1, 1), 6);
    assert_eq!(px(&fb, 2, 0), 0);
}

#[test]
fn ramfb_copy_rect_overlapping_down_and_right() {
    let mut fb = RamFb::new();
    let src: Vec<u32> = (1..=16).collect();
    fb.blit(Rect::from_size(Point::new(10, 10), 4, 4), &src);
    // Shift the 4x4 block by (1, 1): source and destination overlap.
    fb.copy_rect(Rect::from_size(Point::new(10, 10), 4, 4), Point::new(11, 11));
    for row in 0..4 {
        for col in 0..4 {
            assert_eq!(px(&fb, 11 + col, 11 + row), (row * 4 + col + 1) as u32);
        }
    }
    // The uncovered parts of the source keep their old colors.
    assert_eq!(px(&fb, 10, 10), 1);
    assert_eq!(px(&fb, 13, 10), 4);
    assert_eq!(px(&fb, 10, 13), 13);
}

#[test]
fn ramfb_copy_rect_overlapping_up_and_left() {
    let mut fb = RamFb::new();
    let src: Vec<u32> = (1..=16).collect();
    fb.blit(Rect::from_size(Point::new(10, 10), 4, 4), &src);
    fb.copy_rect(Rect::from_size(Point::new(10, 10), 4, 4), Point::new(9, 8));
    for row in 0..4 {
        for col in 0..4 {
            assert_eq!(px(&fb, 9 + col, 8 + row), (row * 4 + col + 1) as u32);
        }
    }
}

#[test]
fn ramfb_copy_rect_clips_destination() {
    let mut fb = RamFb::new();
    fb.fill_rect(Rect::from_size(Point::new(0, 0), 4, 1), 3);
    // Copying to the right edge keeps only the columns that land on screen.
    fb.copy_rect(Rect::from_size(Point::new(0, 0), 4, 1), Point::new(1022, 5));
    assert_eq!(px(&fb, 1022, 5), 3);
    assert_eq!(px(&fb, 1023, 5), 3);
    assert_eq!(px(&fb, 1021, 5), 0);
}

#[test]
fn framebuffer_clear_and_pixel() {
    let mut fb = Framebuffer::new(RamFb::new());
    let r = fb.rect();
    assert_eq!((r.right(), r.bottom()), (1024, 768));
    fb.clear(0x123456);
    fb.draw_pixel(Pixel::new(5, 6, 0xabcdef));
    fb.draw_pixel(Pixel::new(-1, 6, 0xabcdef));
    fb.flush();
}

#[test]
fn font_glyph_lookup() {
    let data: Vec<u8> = (0..=255u8).flat_map(|c| [c; 2]).collect();
    let font = FramebufferFont::new(&data, 2);
    assert_eq!(font.glyph(b'A'), Some(&[b'A', b'A'][..]));
    assert_eq!(font.glyph(255), Some(&[255, 255][..]));
    let short = FramebufferFont::new(&data[..10], 2);
    assert_eq!(short.glyph(4), Some(&[4, 4][..]));
    assert_eq!(short.glyph(5), None);
}

#[test]
fn draw_text_renders_glyph_bits() {
    // Every glyph is 2 rows: 0b1000_0001 then 0b0100_0000.
    let data: Vec<u8> = (0..256).flat_map(|_| [0x81u8, 0x40]).collect();
    let font = FramebufferFont::new(&data, 2);
    let mut target = RamFb::new();
    font.draw_glyph(&mut target, Point::new(8, 4), b'x', 0xff);
    assert_eq!(px(&target, 8, 4), 0xff);
    assert_eq!(px(&target, 15, 4), 0xff);
    assert_eq!(px(&target, 9, 4), 0);
    assert_eq!(px(&target, 9, 5), 0xff);
    assert_eq!(px(&target, 8, 5), 0);
}

#[test]
fn draw_text_moves_cursor() {
    let data: Vec<u8> = (0..256).flat_map(|_| [0x80u8, 0x00]).collect();
    let font = FramebufferFont::new(&data, 2);
    let mut fb = Framebuffer::new(RamFb::new());
    fb.draw_text(&font, Point::new(0, 0), "ab\ncd\rz", 5);
    let t = fb.target();
    // 'a' and 'b' on the first line, 'c' and 'd' two rows down, 'z' back over 'c'.
    assert_eq!(px(t, 0, 0), 5);
    assert_eq!(px(t, 8, 0), 5);
    assert_eq!(px(t, 16, 0), 0);
    assert_eq!(px(t, 0, 2), 5);
    assert_eq!(px(t, 8, 2), 5);
    assert_eq!(px(t, 1, 0), 0);
    assert_eq!(px(t, 0, 1), 0);
}
