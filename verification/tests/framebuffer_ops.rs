use framecanvas::Color;
use framecanvas::ColorFormat;
use framecanvas::ColorStream;
use framecanvas::Framebuffer;
use framecanvas::Pixel;
use framecanvas::Point;
use framecanvas::Rectangle;
use framecanvas::Size;

fn c565(r: u8, g: u8, b: u8) -> Color {
    Color::new(ColorFormat::Rgb565, r, g, b)
}

fn rect(x: i32, y: i32, w: u32, h: u32) -> Rectangle {
    Rectangle::new(Point::new(x, y), Size::new(w, h))
}

#[test]
fn new_framebuffer_is_black() {
    let fb = Framebuffer::new(3, 2, ColorFormat::Rgb565);
    assert_eq!(fb.width, 3);
    assert_eq!(fb.height, 2);
    assert_eq!(fb.buf().len(), 6);
    for y in 0..2 {
        for x in 0..3 {
            assert_eq!(fb.get(x, y), Color::black(ColorFormat::Rgb565));
        }
    }
}

#[test]
fn fill_solid_clips_to_quadrant() {
    // A 4x4 buffer, filled black, then a 4x4 white rectangle anchored at
    // (2,2): only the in-bounds quadrant becomes white.
    let mut fb = Framebuffer::new(4, 4, ColorFormat::Rgb565);
    let black = c565(0, 0, 0);
    let white = c565(31, 63, 31);
    fb.fill_solid(&rect(0, 0, 4, 4), black);
    fb.fill_solid(&rect(2, 2, 4, 4), white);
    for y in 0..4u32 {
        for x in 0..4u32 {
            let expected = if x >= 2 && y >= 2 { white } else { black };
            assert_eq!(fb.get(x, y), expected, "cell ({x},{y})");
        }
    }
}

#[test]
fn fill_solid_inside_bounds_writes_rect_only() {
    let mut fb = Framebuffer::new(5, 4, ColorFormat::Rgb565);
    let c = c565(7, 8, 9);
    fb.fill_solid(&rect(1, 1, 3, 2), c);
    for y in 0..4u32 {
        for x in 0..5u32 {
            let inside = (1..4).contains(&x) && (1..3).contains(&y);
            let expected = if inside { c } else { Color::black(ColorFormat::Rgb565) };
            assert_eq!(fb.get(x, y), expected, "cell ({x},{y})");
        }
    }
}

#[test]
fn fill_solid_fully_outside_is_noop() {
    let mut fb = Framebuffer::new(4, 4, ColorFormat::Rgb565);
    fb.fill_solid(&rect(-10, -10, 5, 5), c565(31, 0, 0));
    fb.fill_solid(&rect(4, 0, 2, 2), c565(31, 0, 0));
    for y in 0..4u32 {
        for x in 0..4u32 {
            assert_eq!(fb.get(x, y), Color::black(ColorFormat::Rgb565));
        }
    }
}

#[test]
fn fill_solid_zero_size_is_noop() {
    let mut fb = Framebuffer::new(4, 4, ColorFormat::Rgb565);
    fb.fill_solid(&rect(1, 1, 0, 3), c565(31, 0, 0));
    fb.fill_solid(&rect(1, 1, 3, 0), c565(31, 0, 0));
    for y in 0..4u32 {
        for x in 0..4u32 {
            assert_eq!(fb.get(x, y), Color::black(ColorFormat::Rgb565));
        }
    }
}

#[test]
fn clear_overwrites_every_cell() {
    let mut fb = Framebuffer::new(3, 3, ColorFormat::Rgb666);
    let c = Color::new(ColorFormat::Rgb666, 11, 22, 33);
    fb.clear(c);
    for y in 0..3u32 {
        for x in 0..3u32 {
            assert_eq!(fb.get(x, y), c);
        }
    }
}

#[test]
fn draw_iter_writes_in_bounds_and_discards_outside() {
    let mut fb = Framebuffer::new(3, 3, ColorFormat::Rgb565);
    let a = c565(1, 1, 1);
    let b = c565(2, 2, 2);
    let pixels = vec![
        Pixel(Point::new(0, 0), a),
        Pixel(Point::new(-1, 0), b),
        Pixel(Point::new(0, 3), b),
        Pixel(Point::new(2, 2), b),
        Pixel(Point::new(100, 100), a),
    ];
    fb.draw_iter(&pixels);
    assert_eq!(fb.get(0, 0), a);
    assert_eq!(fb.get(2, 2), b);
    assert_eq!(fb.get(1, 1), Color::black(ColorFormat::Rgb565));
}

#[test]
fn draw_iter_last_write_wins() {
    let mut fb = Framebuffer::new(2, 2, ColorFormat::Rgb565);
    let a = c565(1, 1, 1);
    let b = c565(2, 2, 2);
    let pixels = vec![Pixel(Point::new(1, 0), a), Pixel(Point::new(1, 0), b)];
    fb.draw_iter(&pixels);
    assert_eq!(fb.get(1, 0), b);
}

#[test]
fn fill_contiguous_consumes_full_area_when_clipped() {
    // Rectangle (-1,-1) 3x3 over a 4x4 buffer: the clip is the 2x2 corner,
    // but all 9 streamed colors must be consumed.
    let mut fb = Framebuffer::new(4, 4, ColorFormat::Rgb565);
    let mut items = Vec::new();
    for i in 0..9u8 {
        items.push(c565(i, i, i));
    }
    let mut stream = ColorStream::new(items);
    fb.fill_contiguous(&rect(-1, -1, 3, 3), &mut stream);
    assert_eq!(stream.consumed(), 9);
    // Row-major positions within the requested rectangle:
    // (0,0) is the rectangle's cell (1,1) -> stream index 4, and so on.
    assert_eq!(fb.get(0, 0), c565(4, 4, 4));
    assert_eq!(fb.get(1, 0), c565(5, 5, 5));
    assert_eq!(fb.get(0, 1), c565(7, 7, 7));
    assert_eq!(fb.get(1, 1), c565(8, 8, 8));
    assert_eq!(fb.get(2, 0), Color::black(ColorFormat::Rgb565));
    assert_eq!(fb.get(2, 2), Color::black(ColorFormat::Rgb565));
}

#[test]
fn fill_contiguous_fully_outside_still_consumes() {
    let mut fb = Framebuffer::new(4, 4, ColorFormat::Rgb565);
    let items = vec![c565(1, 1, 1); 6];
    let mut stream = ColorStream::new(items);
    fb.fill_contiguous(&rect(-10, 0, 2, 3), &mut stream);
    assert_eq!(stream.consumed(), 6);
    for y in 0..4u32 {
        for x in 0..4u32 {
            assert_eq!(fb.get(x, y), Color::black(ColorFormat::Rgb565));
        }
    }
}

#[test]
fn fill_contiguous_short_stream_stops_writing() {
    let mut fb = Framebuffer::new(4, 4, ColorFormat::Rgb565);
    let items = vec![c565(1, 1, 1), c565(2, 2, 2), c565(3, 3, 3)];
    let mut stream = ColorStream::new(items);
    fb.fill_contiguous(&rect(0, 0, 2, 2), &mut stream);
    assert_eq!(stream.consumed(), 3);
    assert_eq!(fb.get(0, 0), c565(1, 1, 1));
    assert_eq!(fb.get(1, 0), c565(2, 2, 2));
    assert_eq!(fb.get(0, 1), c565(3, 3, 3));
    assert_eq!(fb.get(1, 1), Color::black(ColorFormat::Rgb565));
}

#[test]
fn iter_colors_is_row_major_copy() {
    let mut fb = Framebuffer::new(2, 2, ColorFormat::Rgb565);
    fb.fill_solid(&rect(1, 1, 1, 1), c565(9, 9, 9));
    let colors = fb.iter_colors();
    assert_eq!(colors.len(), 4);
    assert_eq!(colors[3], c565(9, 9, 9));
    assert_eq!(colors[0], Color::black(ColorFormat::Rgb565));
}

#[test]
fn stream_next_and_skip() {
    let mut s = ColorStream::new(vec![c565(1, 1, 1), c565(2, 2, 2)]);
    assert_eq!(s.len(), 2);
    assert_eq!(s.next(), Some(c565(1, 1, 1)));
    assert_eq!(s.consumed(), 1);
    s.skip(5);
    assert_eq!(s.consumed(), 2);
    assert_eq!(s.next(), None);
    assert_eq!(s.consumed(), 2);
}

#[test]
fn intersection_of_disjoint_rects_is_empty() {
    let a = rect(0, 0, 2, 2);
    let b = rect(5, 5, 2, 2);
    let i = a.intersection(&b);
    assert!(i.is_empty());
}

#[test]
fn intersection_of_overlapping_rects() {
    let a = rect(0, 0, 4, 4);
    let b = rect(2, 1, 4, 4);
    let i = a.intersection(&b);
    assert_eq!(i.top_left, Point::new(2, 1));
    assert_eq!(i.size, Size::new(2, 3));
}
