use framecanvas::AlphaCanvas;
use framecanvas::AlphaPixel;
use framecanvas::Color;
use framecanvas::ColorFormat;
use framecanvas::ColorStream;
use framecanvas::Framebuffer;
use framecanvas::Pixel;
use framecanvas::Point;
use framecanvas::Rectangle;
use framecanvas::Rgba;
use framecanvas::Size;

fn c888(r: u8, g: u8, b: u8) -> Color {
    Color::new(ColorFormat::Rgb888, r, g, b)
}

fn rect(x: i32, y: i32, w: u32, h: u32) -> Rectangle {
    Rectangle::new(Point::new(x, y), Size::new(w, h))
}

#[test]
fn alpha_fill_solid_blends_half_red_over_black() {
    let mut fb = Framebuffer::new(3, 3, ColorFormat::Rgb888);
    let mut ac = AlphaCanvas::new(&mut fb);
    ac.fill_solid(&rect(0, 0, 2, 2), Rgba::new(c888(255, 0, 0), 128));
    assert_eq!(fb.get(0, 0), c888(128, 0, 0));
    assert_eq!(fb.get(1, 1), c888(128, 0, 0));
    assert_eq!(fb.get(2, 2), c888(0, 0, 0));
}

#[test]
fn alpha_fill_solid_transparent_is_noop() {
    let mut fb = Framebuffer::new(2, 2, ColorFormat::Rgb888);
    fb.fill_solid(&rect(0, 0, 2, 2), c888(10, 20, 30));
    let mut ac = AlphaCanvas::new(&mut fb);
    ac.fill_solid(&rect(0, 0, 2, 2), Rgba::new(c888(255, 255, 255), 0));
    assert_eq!(fb.get(0, 0), c888(10, 20, 30));
    assert_eq!(fb.get(1, 1), c888(10, 20, 30));
}

#[test]
fn alpha_fill_solid_opaque_overwrites() {
    let mut fb = Framebuffer::new(2, 2, ColorFormat::Rgb888);
    fb.fill_solid(&rect(0, 0, 2, 2), c888(10, 20, 30));
    let mut ac = AlphaCanvas::new(&mut fb);
    ac.fill_solid(&rect(0, 0, 1, 1), Rgba::new(c888(200, 201, 202), 255));
    assert_eq!(fb.get(0, 0), c888(200, 201, 202));
    assert_eq!(fb.get(1, 0), c888(10, 20, 30));
}

#[test]
fn alpha_fill_solid_clips() {
    let mut fb = Framebuffer::new(4, 4, ColorFormat::Rgb888);
    let mut ac = AlphaCanvas::new(&mut fb);
    ac.fill_solid(&rect(2, 2, 4, 4), Rgba::new(c888(255, 255, 255), 255));
    assert_eq!(fb.get(1, 1), c888(0, 0, 0));
    assert_eq!(fb.get(2, 2), c888(255, 255, 255));
    assert_eq!(fb.get(3, 3), c888(255, 255, 255));
}

#[test]
fn alpha_draw_iter_blends_and_discards_outside() {
    let mut fb = Framebuffer::new(2, 2, ColorFormat::Rgb888);
    let mut ac = AlphaCanvas::new(&mut fb);
    let pixels = vec![
        AlphaPixel(Point::new(0, 0), Rgba::new(c888(255, 0, 0), 128)),
        AlphaPixel(Point::new(-1, 5), Rgba::new(c888(255, 255, 255), 255)),
    ];
    ac.draw_iter(&pixels);
    assert_eq!(fb.get(0, 0), c888(128, 0, 0));
    assert_eq!(fb.get(1, 1), c888(0, 0, 0));
}

#[test]
fn alpha_draw_iter_blends_twice_in_order() {
    let mut fb = Framebuffer::new(1, 1, ColorFormat::Rgb888);
    let mut ac = AlphaCanvas::new(&mut fb);
    let p = Rgba::new(c888(255, 0, 0), 128);
    ac.draw_iter(&vec![AlphaPixel(Point::new(0, 0), p), AlphaPixel(Point::new(0, 0), p)]);
    // 0 -> 128 -> 128 + round(127*128/255) = 128 + 64 = 192
    assert_eq!(fb.get(0, 0), c888(192, 0, 0));
}

#[test]
fn alpha_fill_contiguous_drains_and_blends() {
    let mut fb = Framebuffer::new(2, 2, ColorFormat::Rgb888);
    let mut ac = AlphaCanvas::new(&mut fb);
    let items = vec![
        Rgba::new(c888(255, 0, 0), 0),
        Rgba::new(c888(255, 0, 0), 128),
        Rgba::new(c888(255, 0, 0), 255),
        Rgba::new(c888(0, 255, 0), 128),
    ];
    let mut stream = ColorStream::new(items);
    ac.fill_contiguous(&rect(0, 0, 2, 2), &mut stream);
    assert_eq!(stream.consumed(), 4);
    assert_eq!(fb.get(0, 0), c888(0, 0, 0));
    assert_eq!(fb.get(1, 0), c888(128, 0, 0));
    assert_eq!(fb.get(0, 1), c888(255, 0, 0));
    assert_eq!(fb.get(1, 1), c888(0, 128, 0));
}

#[test]
fn alpha_fill_contiguous_clipped_still_drains() {
    let mut fb = Framebuffer::new(2, 2, ColorFormat::Rgb888);
    let mut ac = AlphaCanvas::new(&mut fb);
    let items = vec![Rgba::new(c888(255, 255, 255), 255); 9];
    let mut stream = ColorStream::new(items);
    ac.fill_contiguous(&rect(1, 1, 3, 3), &mut stream);
    assert_eq!(stream.consumed(), 9);
    assert_eq!(fb.get(0, 0), c888(0, 0, 0));
    assert_eq!(fb.get(1, 1), c888(255, 255, 255));
}

#[test]
fn alpha_clear_blends_every_cell() {
    let mut fb = Framebuffer::new(2, 2, ColorFormat::Rgb888);
    fb.fill_solid(&rect(0, 0, 2, 2), c888(0, 0, 0));
    let mut ac = AlphaCanvas::new(&mut fb);
    ac.clear(Rgba::new(c888(255, 0, 0), 128));
    for y in 0..2u32 {
        for x in 0..2u32 {
            assert_eq!(fb.get(x, y), c888(128, 0, 0));
        }
    }
}

#[test]
fn alpha_surface_shares_pixel_store_with_solid_path() {
    let mut fb = Framebuffer::new(2, 1, ColorFormat::Rgb888);
    fb.draw_iter(&vec![Pixel(Point::new(0, 0), c888(100, 0, 0))]);
    {
        let mut ac = AlphaCanvas::new(&mut fb);
        assert_eq!(ac.size(), Size::new(2, 1));
        ac.fill_solid(&rect(0, 0, 2, 1), Rgba::new(c888(0, 0, 0), 0));
    }
    assert_eq!(fb.get(0, 0), c888(100, 0, 0));
}
