//! The pixel grid: a row-major, fixed-length sequence of color cells plus its
//! dimensions, with clipped write operations that never index out of bounds.

use vstd::prelude::*;
use crate::geometry::Point;
use crate::geometry::Rectangle;
use crate::geometry::Size;
use crate::rgba::Color;
use crate::rgba::ColorFormat;
use crate::stream::ColorStream;

verus! {

/// One drawing request: a position and the color to write there.
#[derive(Clone, Copy, Debug, PartialEq, Eq, Structural)]
pub struct Pixel(pub Point, pub Color);

/// The cell of a row-major grid of width `w` at column `x`, row `y`.
pub open spec fn cell_at(cells: Seq<Color>, w: int, x: int, y: int) -> Color {
    cells[y * w + x]
}

/// A row-major index stays inside a `w * h` grid.
pub proof fn lemma_index_bounds(w: int, h: int, x: int, y: int)
    requires
        0 <= x < w,
        0 <= y < h,
    ensures
        0 <= y * w + x < w * h,
{
    assert(0 <= y * w + x < w * h) by (nonlinear_arith)
        requires
            0 <= x < w,
            0 <= y < h,
    ;
}

/// Distinct coordinates give distinct row-major indices.
pub proof fn lemma_index_injective(w: int, x1: int, y1: int, x2: int, y2: int)
    requires
        0 <= x1 < w,
        0 <= x2 < w,
        0 <= y1,
        0 <= y2,
        !(x1 == x2 && y1 == y2),
    ensures
        y1 * w + x1 != y2 * w + x2,
{
    assert(y1 * w + x1 != y2 * w + x2) by (nonlinear_arith)
        requires
            0 <= x1 < w,
            0 <= x2 < w,
            0 <= y1,
            0 <= y2,
            !(x1 == x2 && y1 == y2),
    ;
}

/// Writing one cell changes that cell and no other.
pub proof fn lemma_cell_at_update(cells: Seq<Color>, w: int, h: int, xi: int, yi: int, c: Color)
    requires
        cells.len() == w * h,
        0 <= xi < w,
        0 <= yi < h,
    ensures
        0 <= yi * w + xi < cells.len(),
        cell_at(cells.update(yi * w + xi, c), w, xi, yi) == c,
        forall|x: int, y: int|
            0 <= x < w && 0 <= y < h && !(x == xi && y == yi)
                ==> #[trigger] cell_at(cells.update(yi * w + xi, c), w, x, y)
                == cell_at(cells, w, x, y),
{
    lemma_index_bounds(w, h, xi, yi);
    assert forall|x: int, y: int|
        0 <= x < w && 0 <= y < h && !(x == xi && y == yi)
            implies #[trigger] cell_at(cells.update(yi * w + xi, c), w, x, y)
            == cell_at(cells, w, x, y) by {
        lemma_index_injective(w, x, y, xi, yi);
        lemma_index_bounds(w, h, x, y);
    }
}

/// The effect of one drawing request on a `w * h` grid: in-bounds requests
/// overwrite their cell, out-of-bounds requests are discarded.
pub open spec fn set_pixel_spec(cells: Seq<Color>, w: int, h: int, p: Pixel) -> Seq<Color> {
    if 0 <= p.0.x < w && 0 <= p.0.y < h {
        cells.update(p.0.y * w + p.0.x, p.1)
    } else {
        cells
    }
}

/// The effect of a list of drawing requests, applied in order.
pub open spec fn draw_pixels_spec(cells: Seq<Color>, w: int, h: int, ps: Seq<Pixel>) -> Seq<Color>
    decreases ps.len(),
{
    if ps.len() == 0 {
        cells
    } else {
        draw_pixels_spec(set_pixel_spec(cells, w, h, ps[0]), w, h, ps.subrange(1, ps.len() as int))
    }
}

/// Position of the color for cell `(x, y)` within a stream whose cursor
/// stood at `pos` when a streamed fill of `area` began: the stream is laid
/// out in row-major order of the requested (unclipped) rectangle.
pub open spec fn stream_index(pos: int, area: Rectangle, x: int, y: int) -> int {
    pos + (y - area.top_left.y) * area.size.width + (x - area.top_left.x)
}

/// A fixed-length grid of color cells in row-major order, plus its
/// dimensions. The length always equals `width * height`; every write index
/// is checked against that bound before the cell is touched.
pub struct Framebuffer {
    /// The cells, row by row; read it through `cells()` in specifications.
    pub buf: Vec<Color>,
    pub width: u32,
    pub height: u32,
    pub format: ColorFormat,
}

impl Framebuffer {
    /// The cells, row by row.
    pub open spec fn cells(self) -> Seq<Color> {
        self.buf@
    }

    /// Structural invariant: the cell count matches the dimensions and every
    /// cell is a well-formed color of the buffer's format.
    pub open spec fn wf(self) -> bool {
        self.buf@.len() == self.width * self.height && forall|i: int|
            0 <= i < self.buf@.len() ==> (#[trigger] self.buf@[i]).wf() && self.buf@[i].format
                == self.format
    }

    /// Whether `(x, y)` lies inside the grid.
    pub open spec fn in_bounds(self, x: int, y: int) -> bool {
        0 <= x < self.width && 0 <= y < self.height
    }

    /// The cell at column `x`, row `y`.
    pub open spec fn cell(self, x: int, y: int) -> Color {
        cell_at(self.buf@, self.width as int, x, y)
    }

    /// The full grid as a rectangle anchored at the origin.
    pub open spec fn bounds_spec(self) -> Rectangle {
        Rectangle {
            top_left: Point { x: 0, y: 0 },
            size: Size { width: self.width, height: self.height },
        }
    }

    /// Dimensions and format agree.
    pub open spec fn same_shape(self, other: Framebuffer) -> bool {
        self.width == other.width && self.height == other.height && self.format == other.format
    }

    /// Create a grid of the given dimensions with every cell set to the
    /// format's black sentinel.
    pub fn new(width: u32, height: u32, format: ColorFormat) -> (fb: Framebuffer)
        requires
            width as int * height as int <= usize::MAX as int,
        ensures
            fb.wf(),
            fb.width == width,
            fb.height == height,
            fb.format == format,
            fb.cells().len() == width as int * height as int,
            forall|i: int| 0 <= i < fb.cells().len()
                ==> #[trigger] fb.cells()[i] == Color::black_spec(format),
    {
        let n: usize = (width as u64 * height as u64) as usize;
        let black = Color::black(format);
        let mut buf: Vec<Color> = Vec::new();
        while buf.len() < n
            invariant
                buf@.len() <= n,
                black == Color::black_spec(format),
                forall|i: int| 0 <= i < buf@.len()
                    ==> #[trigger] buf@[i] == Color::black_spec(format),
            decreases n - buf@.len(),
        {
            buf.push(black);
        }
        Framebuffer { buf, width, height, format }
    }

    /// The full grid rectangle.
    pub fn bounding_box(&self) -> (r: Rectangle)
        ensures
            r == self.bounds_spec(),
    {
        Rectangle {
            top_left: Point { x: 0, y: 0 },
            size: Size { width: self.width, height: self.height },
        }
    }

    /// The grid's dimensions.
    pub fn size(&self) -> (s: Size)
        ensures
            s == (Size { width: self.width, height: self.height }),
    {
        Size { width: self.width, height: self.height }
    }

    /// Borrow the cells, row by row.
    pub fn buf(&self) -> (r: &Vec<Color>)
        ensures
            r@ == self.cells(),
    {
        &self.buf
    }

    /// Copy the cells out, row by row.
    pub fn iter_colors(&self) -> (r: Vec<Color>)
        ensures
            r@ == self.cells(),
    {
        let mut out: Vec<Color> = Vec::new();
        let mut i: usize = 0;
        while i < self.buf.len()
            invariant
                i <= self.buf@.len(),
                out@ == self.buf@.subrange(0, i as int),
            decreases self.buf@.len() - i,
        {
            out.push(self.buf[i]);
            i += 1;
        }
        proof {
            assert(out@ =~= self.buf@);
        }
        out
    }

    /// The cell at `(x, y)`.
    pub fn get(&self, x: u32, y: u32) -> (c: Color)
        requires
            self.wf(),
            x < self.width,
            y < self.height,
        ensures
            c == self.cell(x as int, y as int),
            c.wf(),
            c.format == self.format,
    {
        let i = self.idx(x, y);
        self.buf[i]
    }

    /// Row-major index of `(x, y)`.
    pub(crate) fn idx(&self, x: u32, y: u32) -> (i: usize)
        requires
            self.wf(),
            x < self.width,
            y < self.height,
        ensures
            i == y * self.width + x,
            i < self.cells().len(),
    {
        let n = self.buf.len();
        proof {
            lemma_index_bounds(self.width as int, self.height as int, x as int, y as int);
            assert((y as int * self.width as int + x as int) < n as int);
        }
        (y as u64 * self.width as u64 + x as u64) as usize
    }

    /// Apply each drawing request in order: in-bounds pixels overwrite their
    /// cell, out-of-bounds pixels are silently discarded; every request is
    /// consumed.
    pub fn draw_iter(&mut self, pixels: &Vec<Pixel>)
        requires
            old(self).wf(),
            forall|i: int|
                0 <= i < pixels@.len() ==> (#[trigger] pixels@[i]).1.wf() && pixels@[i].1.format
                    == old(self).format,
        ensures
            final(self).wf(),
            final(self).same_shape(*old(self)),
            final(self).cells() == draw_pixels_spec(
                old(self).cells(),
                old(self).width as int,
                old(self).height as int,
                pixels@,
            ),
    {
        let w = self.width;
        let h = self.height;
        let ghost ps = pixels@;
        proof {
            assert(ps.subrange(0, ps.len() as int) =~= ps);
        }
        let mut i: usize = 0;
        while i < pixels.len()
            invariant
                i <= ps.len(),
                ps == pixels@,
                self.width == w,
                self.height == h,
                self.format == old(self).format,
                self.wf(),
                forall|j: int|
                    0 <= j < ps.len() ==> (#[trigger] ps[j]).1.wf() && ps[j].1.format
                        == self.format,
                draw_pixels_spec(old(self).cells(), w as int, h as int, ps)
                    == draw_pixels_spec(self.buf@, w as int, h as int, ps.subrange(
                    i as int,
                    ps.len() as int,
                )),
            decreases ps.len() - i,
        {
            let ghost rest = ps.subrange(i as int, ps.len() as int);
            proof {
                assert(rest[0] == ps[i as int]);
                assert(rest.subrange(1, rest.len() as int) =~= ps.subrange(
                    i as int + 1,
                    ps.len() as int,
                ));
            }
            let p = pixels[i];
            let px = p.0.x;
            let py = p.0.y;
            if px >= 0 && py >= 0 && (px as u32) < w && (py as u32) < h {
                let ghost prev = self.buf@;
                let j = self.idx(px as u32, py as u32);
                self.buf[j] = p.1;
                proof {
                    assert(self.buf@ == set_pixel_spec(prev, w as int, h as int, ps[i as int]));
                }
            }
            i += 1;
        }
        proof {
            assert(ps.subrange(ps.len() as int, ps.len() as int) =~= Seq::<Pixel>::empty());
        }
    }

    /// Clip the rectangle against the grid's bounds, then overwrite every
    /// cell of the clipped span with `color`. A rectangle wholly outside the
    /// bounds degrades to a no-op.
    pub fn fill_solid(&mut self, area: &Rectangle, color: Color)
        requires
            old(self).wf(),
            color.wf(),
            color.format == old(self).format,
        ensures
            final(self).wf(),
            final(self).same_shape(*old(self)),
            final(self).cells().len() == old(self).cells().len(),
            forall|x: int, y: int|
                old(self).in_bounds(x, y) ==> #[trigger] final(self).cell(x, y) == if area.contains(
                    x,
                    y,
                ) {
                    color
                } else {
                    old(self).cell(x, y)
                },
    {
        let bounds = self.bounding_box();
        let clip = area.intersection(&bounds);
        if clip.is_empty() {
            proof {
                assert forall|x: int, y: int|
                    0 <= x < self.width && 0 <= y < self.height implies !area.contains(x, y) by {
                    assert(!clip.contains(x, y));
                    assert(bounds.contains(x, y));
                }
            }
            return ;
        }
        let w = self.width;
        let h = self.height;
        let cx0: u32 = clip.top_left.x as u32;
        let cy0: u32 = clip.top_left.y as u32;
        let cw: u32 = clip.size.width;
        let ch: u32 = clip.size.height;
        let mut ry: u32 = 0;
        while ry < ch
            invariant
                ry <= ch,
                self.width == w,
                self.height == h,
                self.format == old(self).format,
                self.wf(),
                old(self).wf(),
                color.wf(),
                color.format == old(self).format,
                self.buf@.len() == old(self).buf@.len(),
                cx0 == clip.top_left.x,
                cy0 == clip.top_left.y,
                cw == clip.size.width,
                ch == clip.size.height,
                cx0 + cw <= w,
                cy0 + ch <= h,
                forall|x: int, y: int|
                    0 <= x < w && 0 <= y < h ==> (clip.contains(x, y) <==> area.contains(x, y)),
                forall|x: int, y: int|
                    0 <= x < w && 0 <= y < h ==> #[trigger] cell_at(self.buf@, w as int, x, y)
                        == if clip.contains(x, y) && y < cy0 + ry {
                        color
                    } else {
                        cell_at(old(self).buf@, w as int, x, y)
                    },
            decreases ch - ry,
        {
            let y = cy0 + ry;
            let mut rx: u32 = 0;
            while rx < cw
                invariant
                    rx <= cw,
                    ry < ch,
                    y == cy0 + ry,
                    self.width == w,
                    self.height == h,
                    self.format == old(self).format,
                    self.wf(),
                    old(self).wf(),
                    color.wf(),
                    color.format == old(self).format,
                    self.buf@.len() == old(self).buf@.len(),
                    cx0 == clip.top_left.x,
                    cy0 == clip.top_left.y,
                    cw == clip.size.width,
                    ch == clip.size.height,
                    cx0 + cw <= w,
                    cy0 + ch <= h,
                    forall|x2: int, y2: int|
                        0 <= x2 < w && 0 <= y2 < h ==> (clip.contains(x2, y2) <==> area.contains(
                            x2,
                            y2,
                        )),
                    forall|x2: int, y2: int|
                        0 <= x2 < w && 0 <= y2 < h ==> #[trigger] cell_at(self.buf@, w as int, x2, y2)
                            == if clip.contains(x2, y2) && (y2 < y || (y2 == y && x2 < cx0 + rx)) {
                            color
                        } else {
                            cell_at(old(self).buf@, w as int, x2, y2)
                        },
                decreases cw - rx,
            {
                let x = cx0 + rx;
                let ghost prev = self.buf@;
                let i = self.idx(x, y);
                self.buf[i] = color;
                proof {
                    lemma_cell_at_update(prev, w as int, h as int, x as int, y as int, color);
                }
                rx += 1;
            }
            ry += 1;
        }
    }

    /// Clip the rectangle against the grid's bounds and write the streamed
    /// colors into the clipped span, row by row. The stream is always
    /// advanced by exactly `area.width * area.height` colors (or to its end,
    /// if fewer remain), whatever the clip outcome; a stream that runs short
    /// simply stops providing colors to write.
    pub fn fill_contiguous(&mut self, area: &Rectangle, colors: &mut ColorStream<Color>)
        requires
            old(self).wf(),
            old(colors).wf(),
            forall|i: int|
                0 <= i < old(colors).items@.len() ==> (#[trigger] old(colors).items@[i]).wf()
                    && old(colors).items@[i].format == old(self).format,
        ensures
            final(self).wf(),
            final(self).same_shape(*old(self)),
            final(self).cells().len() == old(self).cells().len(),
            final(colors).wf(),
            final(colors).items@ == old(colors).items@,
            final(colors).pos as int == if old(colors).pos + area.area_spec() <= old(
                colors,
            ).items@.len() {
                old(colors).pos + area.area_spec()
            } else {
                old(colors).items@.len() as int
            },
            forall|x: int, y: int|
                old(self).in_bounds(x, y) ==> #[trigger] final(self).cell(x, y) == if area.contains(
                    x,
                    y,
                ) && stream_index(old(colors).pos as int, *area, x, y) < old(
                    colors,
                ).items@.len() {
                    old(colors).items@[stream_index(old(colors).pos as int, *area, x, y)]
                } else {
                    old(self).cell(x, y)
                },
    {
        proof {
            assert(area.size.width as int * area.size.height as int <= 0xffff_ffff_0000_0000)
                by (nonlinear_arith)
                requires
                    area.size.width as int <= 0xffff_ffff,
                    area.size.height as int <= 0xffff_ffff,
            ;
        }
        let total: u64 = area.size.width as u64 * area.size.height as u64;
        let bounds = self.bounding_box();
        let clip = area.intersection(&bounds);
        let ghost pos0 = old(colors).pos as int;
        let ghost items0 = old(colors).items@;
        if clip.is_empty() {
            proof {
                assert forall|x: int, y: int|
                    0 <= x < self.width && 0 <= y < self.height implies !area.contains(x, y) by {
                    assert(!clip.contains(x, y));
                    assert(bounds.contains(x, y));
                }
            }
            colors.skip(total);
            return ;
        }
        let w = self.width;
        let h = self.height;
        let cx0: u32 = clip.top_left.x as u32;
        let cy0: u32 = clip.top_left.y as u32;
        let cw: u32 = clip.size.width;
        let ch: u32 = clip.size.height;
        let ax = area.top_left.x;
        let ay = area.top_left.y;
        let aw = area.size.width;
        let ah = area.size.height;
        let npos: usize = colors.pos;
        let nlen: usize = colors.items.len();
        let avail: usize = nlen - npos;
        let mut ry: u32 = 0;
        while ry < ch
            invariant
                ry <= ch,
                self.width == w,
                self.height == h,
                self.format == old(self).format,
                self.wf(),
                old(self).wf(),
                self.buf@.len() == old(self).buf@.len(),
                colors.pos == npos,
                colors.items@ == items0,
                npos as int == pos0,
                npos <= nlen,
                nlen == items0.len(),
                avail == nlen - npos,
                forall|i: int|
                    0 <= i < items0.len() ==> (#[trigger] items0[i]).wf() && items0[i].format
                        == old(self).format,
                cx0 == clip.top_left.x,
                cy0 == clip.top_left.y,
                cw == clip.size.width,
                ch == clip.size.height,
                ax == area.top_left.x,
                ay == area.top_left.y,
                aw == area.size.width,
                ah == area.size.height,
                cx0 + cw <= w,
                cy0 + ch <= h,
                ay <= cy0,
                cy0 + ch <= ay + ah,
                ax <= cx0,
                cx0 + cw <= ax + aw,
                forall|x: int, y: int|
                    0 <= x < w && 0 <= y < h ==> (clip.contains(x, y) <==> area.contains(x, y)),
                forall|x2: int, y2: int|
                    0 <= x2 < w && 0 <= y2 < h ==> #[trigger] cell_at(self.buf@, w as int, x2, y2)
                        == if clip.contains(x2, y2) && y2 < cy0 + ry && stream_index(
                        pos0,
                        *area,
                        x2,
                        y2,
                    ) < nlen {
                        items0[stream_index(pos0, *area, x2, y2)]
                    } else {
                        cell_at(old(self).buf@, w as int, x2, y2)
                    },
            decreases ch - ry,
        {
            let y = cy0 + ry;
            let mut rx: u32 = 0;
            while rx < cw
                invariant
                    rx <= cw,
                    ry < ch,
                    y == cy0 + ry,
                    self.width == w,
                    self.height == h,
                    self.format == old(self).format,
                    self.wf(),
                    old(self).wf(),
                    self.buf@.len() == old(self).buf@.len(),
                    colors.pos == npos,
                    colors.items@ == items0,
                    npos as int == pos0,
                    npos <= nlen,
                    nlen == items0.len(),
                    avail == nlen - npos,
                    forall|i: int|
                        0 <= i < items0.len() ==> (#[trigger] items0[i]).wf() && items0[i].format
                            == old(self).format,
                    cx0 == clip.top_left.x,
                    cy0 == clip.top_left.y,
                    cw == clip.size.width,
                    ch == clip.size.height,
                    ax == area.top_left.x,
                    ay == area.top_left.y,
                    aw == area.size.width,
                    ah == area.size.height,
                    cx0 + cw <= w,
                    cy0 + ch <= h,
                    ay <= cy0,
                    cy0 + ch <= ay + ah,
                    ax <= cx0,
                    cx0 + cw <= ax + aw,
                    forall|x2: int, y2: int|
                        0 <= x2 < w && 0 <= y2 < h ==> (clip.contains(x2, y2) <==> area.contains(
                            x2,
                            y2,
                        )),
                    forall|x2: int, y2: int|
                        0 <= x2 < w && 0 <= y2 < h ==> #[trigger] cell_at(self.buf@, w as int, x2, y2)
                            == if clip.contains(x2, y2) && (y2 < y || (y2 == y && x2 < cx0 + rx))
                            && stream_index(pos0, *area, x2, y2) < nlen {
                            items0[stream_index(pos0, *area, x2, y2)]
                        } else {
                            cell_at(old(self).buf@, w as int, x2, y2)
                        },
                decreases cw - rx,
            {
                let x = cx0 + rx;
                let dy: u64 = (y as i64 - ay as i64) as u64;
                let dx: u64 = (x as i64 - ax as i64) as u64;
                proof {
                    assert((dy as int * aw as int + dx as int) < (ah as int * aw as int))
                        by (nonlinear_arith)
                        requires
                            0 <= (dy as int),
                            (dy as int) < (ah as int),
                            0 <= (dx as int),
                            (dx as int) < (aw as int),
                    ;
                    assert(ah as int * aw as int <= 0xffff_ffff_0000_0000) by (nonlinear_arith)
                        requires
                            ah as int <= 0xffff_ffff,
                            aw as int <= 0xffff_ffff,
                    ;
                }
                let rel: u64 = dy * (aw as u64) + dx;
                proof {
                    assert(rel as int == stream_index(pos0, *area, x as int, y as int) - pos0);
                }
                if rel < avail as u64 {
                    let c = colors.items[npos + rel as usize];
                    let ghost prev = self.buf@;
                    let i = self.idx(x, y);
                    self.buf[i] = c;
                    proof {
                        lemma_cell_at_update(prev, w as int, h as int, x as int, y as int, c);
                    }
                }
                rx += 1;
            }
            ry += 1;
        }
        colors.skip(total);
    }

    /// Overwrite every cell.
    pub fn clear(&mut self, color: Color)
        requires
            old(self).wf(),
            color.wf(),
            color.format == old(self).format,
        ensures
            final(self).wf(),
            final(self).same_shape(*old(self)),
            final(self).cells().len() == old(self).cells().len(),
            forall|i: int| 0 <= i < final(self).cells().len()
                ==> #[trigger] final(self).cells()[i] == color,
    {
        let n = self.buf.len();
        let mut i: usize = 0;
        while i < n
            invariant
                i <= n,
                n == self.buf@.len(),
                self.width == old(self).width,
                self.height == old(self).height,
                self.format == old(self).format,
                color.wf(),
                color.format == self.format,
                old(self).wf(),
                forall|j: int| 0 <= j < i ==> #[trigger] self.buf@[j] == color,
                forall|j: int| i <= j < n ==> #[trigger] self.buf@[j] == old(self).buf@[j],
            decreases n - i,
        {
            self.buf[i] = color;
            i += 1;
        }
    }
}

} // verus!

