//! Color model and alpha blending.
//!
//! Colors come in three packings (16-bit 5/6/5, 18-bit 6/6/6, 24-bit 8/8/8);
//! a color stores its channel values in the native bit depth of its format.
//! Blending composites a foreground color with an alpha value in `0..=255`
//! over a background color of the same format, channel by channel, using an
//! exact division-free rounding of `delta * alpha / 255`.

use vstd::prelude::*;
use vstd::arithmetic::div_mod::lemma_fundamental_div_mod;
use vstd::arithmetic::div_mod::lemma_fundamental_div_mod_converse;

verus! {

/// The three supported color packings, named by their channel bit widths
/// (red/green/blue).
#[derive(Clone, Copy, Debug, PartialEq, Eq, Structural)]
pub enum ColorFormat {
    /// 16-bit, 5 red / 6 green / 5 blue.
    Rgb565,
    /// 18-bit, 6 bits per channel.
    Rgb666,
    /// 24-bit, 8 bits per channel.
    Rgb888,
}

impl ColorFormat {
    /// Largest red channel value representable in this format.
    pub open spec fn r_max_spec(self) -> u8 {
        match self {
            ColorFormat::Rgb565 => 31,
            ColorFormat::Rgb666 => 63,
            ColorFormat::Rgb888 => 255,
        }
    }

    /// Largest green channel value representable in this format.
    pub open spec fn g_max_spec(self) -> u8 {
        match self {
            ColorFormat::Rgb565 => 63,
            ColorFormat::Rgb666 => 63,
            ColorFormat::Rgb888 => 255,
        }
    }

    /// Largest blue channel value representable in this format.
    pub open spec fn b_max_spec(self) -> u8 {
        self.r_max_spec()
    }

    /// Largest red channel value representable in this format.
    pub fn r_max(&self) -> (m: u8)
        ensures
            m == self.r_max_spec(),
    {
        match self {
            ColorFormat::Rgb565 => 31,
            ColorFormat::Rgb666 => 63,
            ColorFormat::Rgb888 => 255,
        }
    }

    /// Largest green channel value representable in this format.
    pub fn g_max(&self) -> (m: u8)
        ensures
            m == self.g_max_spec(),
    {
        match self {
            ColorFormat::Rgb565 => 63,
            ColorFormat::Rgb666 => 63,
            ColorFormat::Rgb888 => 255,
        }
    }

    /// Largest blue channel value representable in this format.
    pub fn b_max(&self) -> (m: u8)
        ensures
            m == self.b_max_spec(),
    {
        self.r_max()
    }
}

/// An opaque color value: a format tag plus the three channel values, each in
/// the native bit depth of the format.
#[derive(Clone, Copy, Debug, PartialEq, Eq, Structural)]
pub struct Color {
    /// The bit packing this color belongs to.
    pub format: ColorFormat,
    /// Red channel, `0..=format.r_max()`.
    pub r: u8,
    /// Green channel, `0..=format.g_max()`.
    pub g: u8,
    /// Blue channel, `0..=format.b_max()`.
    pub b: u8,
}

impl Color {
    /// Every channel fits the bit width of the format.
    pub open spec fn wf(self) -> bool {
        self.r <= self.format.r_max_spec() && self.g <= self.format.g_max_spec()
            && self.b <= self.format.b_max_spec()
    }

    /// Build a color from channel values in the native bit depth.
    pub fn new(format: ColorFormat, r: u8, g: u8, b: u8) -> (c: Color)
        requires
            r <= format.r_max_spec(),
            g <= format.g_max_spec(),
            b <= format.b_max_spec(),
        ensures
            c == (Color { format, r, g, b }),
            c.wf(),
    {
        Color { format, r, g, b }
    }

    /// The packed bit representation: channels laid out high to low as
    /// red, green, blue, each in its native width.
    pub open spec fn raw_spec(self) -> u32 {
        match self.format {
            ColorFormat::Rgb565 => (self.r * 0x800 + self.g * 0x20 + self.b) as u32,
            ColorFormat::Rgb666 => (self.r * 0x1000 + self.g * 0x40 + self.b) as u32,
            ColorFormat::Rgb888 => (self.r * 0x10000 + self.g * 0x100 + self.b) as u32,
        }
    }

    /// The packed bit representation of the color.
    pub fn raw(&self) -> (v: u32)
        requires
            self.wf(),
        ensures
            v == self.raw_spec(),
    {
        match self.format {
            ColorFormat::Rgb565 => self.r as u32 * 0x800 + self.g as u32 * 0x20 + self.b as u32,
            ColorFormat::Rgb666 => self.r as u32 * 0x1000 + self.g as u32 * 0x40 + self.b as u32,
            ColorFormat::Rgb888 => self.r as u32 * 0x10000 + self.g as u32 * 0x100 + self.b as u32,
        }
    }

    /// The all-zero sentinel color of a format.
    pub open spec fn black_spec(format: ColorFormat) -> Color {
        Color { format, r: 0, g: 0, b: 0 }
    }

    /// The all-zero sentinel color of a format, used for initialization.
    pub fn black(format: ColorFormat) -> (c: Color)
        ensures
            c == Color::black_spec(format),
            c.wf(),
    {
        Color { format, r: 0, g: 0, b: 0 }
    }
}

/// The rounding the blend applies to `delta * alpha`: the nearest integer to
/// `x / 255` for nonnegative `x`; a negative `x` lying just past the halfway
/// point rounds toward zero instead — exactly the values the division-free
/// shift sequence produces when the channel subtraction wraps.
pub open spec fn blend_addend(x: int) -> int {
    if x >= 0 {
        (x + 127) / 255
    } else {
        (x + 128) / 255
    }
}

/// One channel of an alpha blend: move the background toward the foreground
/// by the rounded fraction `alpha / 255` of their difference. `alpha == 0`
/// leaves the background; `alpha == 255` gives the foreground exactly.
pub open spec fn blend_channel_spec(fg: int, bg: int, a: int) -> int {
    if a == 0 {
        bg
    } else if a == 255 {
        fg
    } else {
        bg + blend_addend((fg - bg) * a)
    }
}

/// A full alpha blend: `alpha == 0` returns the background unchanged,
/// `alpha == 255` returns the foreground verbatim, anything in between blends
/// each channel independently. The result carries the background's format.
pub open spec fn blend_color_spec(fg: Color, a: u8, bg: Color) -> Color {
    if a == 0 {
        bg
    } else if a == 255 {
        fg
    } else {
        Color {
            format: bg.format,
            r: blend_channel_spec(fg.r as int, bg.r as int, a as int) as u8,
            g: blend_channel_spec(fg.g as int, bg.g as int, a as int) as u8,
            b: blend_channel_spec(fg.b as int, bg.b as int, a as int) as u8,
        }
    }
}

/// Law: a fully transparent blend returns the background unchanged, for every
/// format and every foreground/background pair.
pub proof fn lemma_blend_transparent_is_background(fg: Color, bg: Color)
    ensures
        blend_color_spec(fg, 0, bg) == bg,
{
}

/// Law: a fully opaque blend returns the foreground color exactly, for every
/// format and every foreground/background pair.
pub proof fn lemma_blend_opaque_is_foreground(fg: Color, bg: Color)
    ensures
        blend_color_spec(fg, 255, bg) == fg,
{
}

/// One blended channel stays between the two channels it blends.
pub proof fn lemma_blend_channel_in_range(fg: int, bg: int, a: int, m: int)
    requires
        0 <= fg <= m,
        0 <= bg <= m,
        m <= 255,
        0 <= a <= 255,
    ensures
        0 <= blend_channel_spec(fg, bg, a) <= m,
{
    if a != 0 && a != 255 {
        if fg >= bg {
            lemma_blend_addend_bounded(fg - bg, a);
        } else {
            lemma_blend_addend_bounded(bg - fg, a);
            assert((fg - bg) * a == -((bg - fg) * a)) by (nonlinear_arith);
        }
    }
}

/// Law: blending two well-formed colors of one format yields a well-formed
/// color of that format.
pub proof fn lemma_blend_color_wf(fg: Color, a: u8, bg: Color)
    requires
        fg.wf(),
        bg.wf(),
        fg.format == bg.format,
    ensures
        blend_color_spec(fg, a, bg).wf(),
        blend_color_spec(fg, a, bg).format == bg.format,
{
    lemma_blend_channel_in_range(fg.r as int, bg.r as int, a as int, bg.format.r_max_spec() as int);
    lemma_blend_channel_in_range(fg.g as int, bg.g as int, a as int, bg.format.g_max_spec() as int);
    lemma_blend_channel_in_range(fg.b as int, bg.b as int, a as int, bg.format.b_max_spec() as int);
}

/// The shift sequence `((t + (t >> 8)) >> 8)` divides by 255 with rounding:
/// on `t == x + 128` it yields `(x + 127) / 255`.
proof fn lemma_div255_shift(t: int)
    requires
        128 <= t <= 65535,
    ensures
        (t + t / 256) / 256 == (t - 1) / 255,
{
    let s = t / 256;
    let u = t % 256;
    lemma_fundamental_div_mod(t, 256);
    assert(0 <= u < 256) by {
        vstd::arithmetic::div_mod::lemma_mod_bound(t, 256);
    }
    assert(t == 256 * s + u);
    assert(0 <= s <= 255);
    if s + u <= 255 {
        lemma_fundamental_div_mod_converse(t + s, 256, s, s + u);
        lemma_fundamental_div_mod_converse(t - 1, 255, s, s + u - 1);
    } else {
        lemma_fundamental_div_mod_converse(t + s, 256, s + 1, s + u - 256);
        lemma_fundamental_div_mod_converse(t - 1, 255, s + 1, s + u - 256);
    }
}

/// Division-free exact rounding: returns `(x + 127) / 255` using only
/// additions and shifts.
fn div255_round(x: u32) -> (r: u32)
    requires
        x <= 65407,
    ensures
        r == (x as int + 127) / 255,
{
    let t: u32 = x + 128;
    proof {
        lemma_div255_shift(t as int);
    }
    assert(t >> 8u32 == t / 256) by (bit_vector);
    let h: u32 = t >> 8;
    let s: u32 = t + h;
    assert(s >> 8u32 == s / 256) by (bit_vector);
    s >> 8
}

/// Mirror of `blend_addend` for a negative argument: rounding `-d` is the
/// negation of rounding `d - 1`.
proof fn lemma_blend_addend_negative(d: int)
    requires
        1 <= d,
    ensures
        blend_addend(-d) == -((d + 126) / 255),
{
    let q = (d + 126) / 255;
    let r = (d + 126) % 255;
    lemma_fundamental_div_mod(d + 126, 255);
    assert(0 <= r < 255) by {
        vstd::arithmetic::div_mod::lemma_mod_bound(d + 126, 255);
    }
    lemma_fundamental_div_mod_converse(128 - d, 255, -q, 254 - r);
}

/// The blend moves a channel only between the two endpoint values.
proof fn lemma_blend_addend_bounded(delta: int, a: int)
    requires
        0 <= delta <= 255,
        0 <= a <= 255,
    ensures
        0 <= blend_addend(delta * a) <= delta,
        0 <= blend_addend(-(delta * a)) + delta <= delta,
{
    let x = delta * a;
    assert(0 <= x <= delta * 255) by (nonlinear_arith)
        requires
            0 <= delta <= 255,
            0 <= a <= 255,
            x == delta * a,
    ;
    assert(blend_addend(x) == (x + 127) / 255);
    assert((x + 127) / 255 >= 0) by {
        vstd::arithmetic::div_mod::lemma_div_is_ordered(0, x + 127, 255);
    }
    assert((x + 127) / 255 <= delta) by {
        lemma_fundamental_div_mod_converse(255 * delta + 254, 255, delta, 254);
        vstd::arithmetic::div_mod::lemma_div_is_ordered(x + 127, 255 * delta + 254, 255);
    }
    if x == 0 {
        assert(blend_addend(0) == 0);
    } else {
        lemma_blend_addend_negative(x);
        let v = (x + 126) / 255;
        assert(v >= 0) by {
            vstd::arithmetic::div_mod::lemma_div_is_ordered(0, x + 126, 255);
        }
        assert(v <= delta) by {
            lemma_fundamental_div_mod_converse(255 * delta + 254, 255, delta, 254);
            vstd::arithmetic::div_mod::lemma_div_is_ordered(x + 126, 255 * delta + 254, 255);
        }
    }
}

/// One channel of the blend, computed without division: the exact rounding of
/// `delta * alpha / 255` is obtained with the add-and-shift sequence.
fn blend_channel(fg: u8, bg: u8, a: u8) -> (r: u8)
    ensures
        r as int == blend_channel_spec(fg as int, bg as int, a as int),
{
    if a == 0 {
        return bg;
    }
    if a == 255 {
        return fg;
    }
    let fgw: u32 = fg as u32;
    let bgw: u32 = bg as u32;
    let aw: u32 = a as u32;
    if fgw >= bgw {
        let delta: u32 = fgw - bgw;
        proof {
            lemma_blend_addend_bounded(delta as int, aw as int);
            assert(delta * aw <= 255 * 255) by (nonlinear_arith)
                requires
                    delta <= 255,
                    aw <= 255,
            ;
        }
        let v: u32 = div255_round(delta * aw);
        proof {
            assert((fg as int - bg as int) * (a as int) == (delta * aw) as int)
                by (nonlinear_arith)
                requires
                    delta as int == fg as int - bg as int,
                    aw as int == a as int,
            ;
            assert(v == blend_addend((fg as int - bg as int) * (a as int)));
        }
        (bgw + v) as u8
    } else {
        let delta: u32 = bgw - fgw;
        proof {
            lemma_blend_addend_bounded(delta as int, aw as int);
            assert(1 * 1 <= delta * aw <= 255 * 255) by (nonlinear_arith)
                requires
                    1 <= delta <= 255,
                    1 <= aw <= 255,
            ;
            lemma_blend_addend_negative((delta * aw) as int);
        }
        let v: u32 = div255_round(delta * aw - 1);
        proof {
            assert((fg as int - bg as int) * (a as int) == -((delta * aw) as int))
                by (nonlinear_arith)
                requires
                    delta as int == bg as int - fg as int,
                    aw as int == a as int,
            ;
            assert(blend_addend((fg as int - bg as int) * (a as int)) == -(v as int));
        }
        (bgw - v) as u8
    }
}

/// A color plus an alpha component in `0..=255`: `0` is fully transparent,
/// `255` fully opaque.
#[derive(Clone, Copy, Debug, PartialEq, Eq, Structural)]
pub struct Rgba(pub Color, pub u8);

impl Rgba {
    /// Create a new RGBA color.
    pub fn new(color: Color, alpha: u8) -> (c: Rgba)
        ensures
            c == Rgba(color, alpha),
    {
        Rgba(color, alpha)
    }

    /// Get the color component.
    pub fn rgb(&self) -> (c: Color)
        ensures
            c == self.0,
    {
        self.0
    }

    /// Red channel of the color component.
    pub fn r(&self) -> (v: u8)
        ensures
            v == self.0.r,
    {
        self.0.r
    }

    /// Green channel of the color component.
    pub fn g(&self) -> (v: u8)
        ensures
            v == self.0.g,
    {
        self.0.g
    }

    /// Blue channel of the color component.
    pub fn b(&self) -> (v: u8)
        ensures
            v == self.0.b,
    {
        self.0.b
    }

    /// Get the alpha component (0..=255).
    pub fn a(&self) -> (v: u8)
        ensures
            v == self.1,
    {
        self.1
    }
}

/// Alpha compositing over a background value.
pub trait Blend<T> {
    /// When the blend is meaningful (for colors: same format, channels in
    /// range).
    spec fn blend_req(&self, bg: T) -> bool;

    /// The composited value.
    spec fn blend_spec(&self, bg: T) -> T;

    /// Composite `self` over the background `bg`.
    fn blend(&self, bg: T) -> (r: T)
        requires
            self.blend_req(bg),
        ensures
            r == self.blend_spec(bg),
    ;
}

impl Blend<Color> for Rgba {
    open spec fn blend_req(&self, bg: Color) -> bool {
        self.0.format == bg.format && self.0.wf() && bg.wf()
    }

    open spec fn blend_spec(&self, bg: Color) -> Color {
        blend_color_spec(self.0, self.1, bg)
    }

    fn blend(&self, bg: Color) -> (r: Color) {
        let a = self.1;
        if a == 0 {
            return bg;
        }
        if a == 255 {
            return self.0;
        }
        Color {
            format: bg.format,
            r: blend_channel(self.0.r, bg.r, a),
            g: blend_channel(self.0.g, bg.g, a),
            b: blend_channel(self.0.b, bg.b, a),
        }
    }
}

} // verus!
