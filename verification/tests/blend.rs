use framecanvas::Blend;
use framecanvas::Color;
use framecanvas::ColorFormat;
use framecanvas::Rgba;

fn c565(r: u8, g: u8, b: u8) -> Color {
    Color::new(ColorFormat::Rgb565, r, g, b)
}

fn c666(r: u8, g: u8, b: u8) -> Color {
    Color::new(ColorFormat::Rgb666, r, g, b)
}

fn c888(r: u8, g: u8, b: u8) -> Color {
    Color::new(ColorFormat::Rgb888, r, g, b)
}

#[test]
fn blend_alpha_zero_returns_background_every_format() {
    let cases = [
        (c565(31, 63, 31), c565(5, 6, 7)),
        (c666(63, 63, 63), c666(1, 2, 3)),
        (c888(255, 255, 255), c888(9, 8, 7)),
        (c888(0, 0, 0), c888(200, 100, 50)),
    ];
    for (fg, bg) in cases {
        assert_eq!(Rgba::new(fg, 0).blend(bg), bg);
    }
}

#[test]
fn blend_alpha_full_returns_foreground_every_format() {
    let cases = [
        (c565(31, 0, 17), c565(5, 6, 7)),
        (c666(12, 34, 56), c666(1, 2, 3)),
        (c888(255, 128, 1), c888(9, 8, 7)),
    ];
    for (fg, bg) in cases {
        assert_eq!(Rgba::new(fg, 255).blend(bg), fg);
    }
}

#[test]
fn blend_half_red_over_black_888_is_mid_red() {
    // Exact div-255 rounding: 128, not a naive shifted 127.
    let out = Rgba::new(c888(255, 0, 0), 128).blend(c888(0, 0, 0));
    assert_eq!(out.r, 128);
    assert_eq!(out.g, 0);
    assert_eq!(out.b, 0);
    assert_eq!(out.format, ColorFormat::Rgb888);
}

#[test]
fn blend_half_white_over_black_565() {
    let out = Rgba::new(c565(31, 63, 31), 128).blend(c565(0, 0, 0));
    assert_eq!((out.r, out.g, out.b), (16, 32, 16));
}

#[test]
fn blend_half_black_over_white_565() {
    let out = Rgba::new(c565(0, 0, 0), 128).blend(c565(31, 63, 31));
    assert_eq!((out.r, out.g, out.b), (15, 31, 15));
}

#[test]
fn blend_mixed_channels_888() {
    let out = Rgba::new(c888(200, 100, 50), 77).blend(c888(10, 20, 30));
    assert_eq!((out.r, out.g, out.b), (67, 44, 36));
}

#[test]
fn blend_tiny_alpha_666_stays_at_background() {
    let out = Rgba::new(c666(63, 0, 63), 1).blend(c666(0, 63, 0));
    assert_eq!((out.r, out.g, out.b), (0, 63, 0));
}

#[test]
fn blend_near_full_alpha_666_reaches_foreground() {
    let out = Rgba::new(c666(63, 0, 63), 254).blend(c666(0, 63, 0));
    assert_eq!((out.r, out.g, out.b), (63, 0, 63));
}

#[test]
fn blend_rounding_boundaries_888() {
    assert_eq!(Rgba::new(c888(255, 0, 0), 1).blend(c888(0, 0, 0)).r, 1);
    assert_eq!(Rgba::new(c888(1, 0, 0), 127).blend(c888(0, 0, 0)).r, 0);
    assert_eq!(Rgba::new(c888(0, 0, 0), 127).blend(c888(1, 0, 0)).r, 1);
    assert_eq!(Rgba::new(c888(0, 0, 0), 128).blend(c888(1, 0, 0)).r, 1);
}

#[test]
fn rgba_accessors() {
    let c = Rgba::new(c565(1, 2, 3), 99);
    assert_eq!(c.rgb(), c565(1, 2, 3));
    assert_eq!(c.r(), 1);
    assert_eq!(c.g(), 2);
    assert_eq!(c.b(), 3);
    assert_eq!(c.a(), 99);
}

#[test]
fn color_black_and_channel_maxes() {
    let b = Color::black(ColorFormat::Rgb565);
    assert_eq!((b.r, b.g, b.b), (0, 0, 0));
    assert_eq!(ColorFormat::Rgb565.r_max(), 31);
    assert_eq!(ColorFormat::Rgb565.g_max(), 63);
    assert_eq!(ColorFormat::Rgb565.b_max(), 31);
    assert_eq!(ColorFormat::Rgb666.r_max(), 63);
    assert_eq!(ColorFormat::Rgb888.g_max(), 255);
}

#[test]
fn color_raw_packing() {
    assert_eq!(c565(31, 63, 31).raw(), 0xffff);
    assert_eq!(c565(1, 2, 3).raw(), (1 << 11) | (2 << 5) | 3);
    assert_eq!(c666(63, 63, 63).raw(), 0x3ffff);
    assert_eq!(c888(0x12, 0x34, 0x56).raw(), 0x123456);
}
