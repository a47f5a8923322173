//! Alpha-composited drawing over an exclusively borrowed framebuffer.
//!
//! The surface re-implements the framebuffer's clipped write operations, but
//! every write reads the existing background cell and stores the blend of the
//! incoming color over it instead of overwriting. A fully transparent write
//! leaves the buffer as it was (streamed color sequences are still drained);
//! a fully opaque write behaves exactly like an overwrite.

use vstd::prelude::*;
use crate::framebuffer::Framebuffer;
use crate::framebuffer::cell_at;
use crate::framebuffer::lemma_cell_at_update;
use crate::framebuffer::lemma_index_bounds;
use crate::framebuffer::stream_index;
use crate::geometry::Point;
use crate::geometry::Rectangle;
use crate::rgba::Rgba;
use crate::rgba::Color;
use crate::rgba::Blend;
use crate::rgba::blend_color_spec;
use crate::rgba::lemma_blend_color_wf;
use crate::stream::ColorStream;

verus! {

/// One alpha drawing request: a position and the color+alpha to composite
/// there.
#[derive(Clone, Copy, Debug, PartialEq, Eq, Structural)]
pub struct AlphaPixel(pub Point, pub Rgba);

/// The effect of one alpha drawing request on a `w * h` grid: an in-bounds
/// request blends over its cell, an out-of-bounds request is discarded.
pub open spec fn blend_pixel_spec(cells: Seq<Color>, w: int, h: int, p: AlphaPixel) -> Seq<
    Color,
> {
    if 0 <= p.0.x < w && 0 <= p.0.y < h {
        cells.update(p.0.y * w + p.0.x, blend_color_spec(p.1.0, p.1.1, cells[p.0.y * w + p.0.x]))
    } else {
        cells
    }
}

/// The effect of a list of alpha drawing requests, applied in order.
pub open spec fn blend_pixels_spec(cells: Seq<Color>, w: int, h: int, ps: Seq<AlphaPixel>) -> Seq<
    Color,
>
    decreases ps.len(),
{
    if ps.len() == 0 {
        cells
    } else {
        blend_pixels_spec(blend_pixel_spec(cells, w, h, ps[0]), w, h, ps.subrange(1, ps.len() as int))
    }
}

/// A drawing surface that borrows a framebuffer exclusively and composites
/// every write against the existing cell instead of overwriting it.
pub struct AlphaCanvas<'a> {
    /// The borrowed pixel store.
    pub buffer: &'a mut Framebuffer,
}

impl<'a> AlphaCanvas<'a> {
    /// Wrap an exclusively borrowed framebuffer.
    pub fn new(buffer: &'a mut Framebuffer) -> (c: AlphaCanvas<'a>)
        ensures
            *c.buffer == *old(buffer),
            *final(buffer) == *final(c.buffer),
    {
        AlphaCanvas { buffer }
    }

    /// The dimensions of the borrowed framebuffer.
    pub fn size(&self) -> (s: crate::geometry::Size)
        ensures
            s.width == (*old(self.buffer)).width,
            s.height == (*old(self.buffer)).height,
    {
        self.buffer.size()
    }

    /// Apply each alpha drawing request in order: in-bounds pixels blend over
    /// their cell, out-of-bounds pixels are silently discarded; every request
    /// is consumed.
    pub fn draw_iter(&mut self, pixels: &Vec<AlphaPixel>)
        requires
            (*old(self).buffer).wf(),
            forall|i: int|
                0 <= i < pixels@.len() ==> (#[trigger] pixels@[i]).1.0.wf()
                    && pixels@[i].1.0.format == (*old(self).buffer).format,
        ensures
            *final(final(self).buffer) == *final(old(self).buffer),
            (*final(self).buffer).wf(),
            (*final(self).buffer).same_shape(*old(self).buffer),
            (*final(self).buffer).cells() == blend_pixels_spec(
                (*old(self).buffer).cells(),
                (*old(self).buffer).width as int,
                (*old(self).buffer).height as int,
                pixels@,
            ),
    {
        let w = self.buffer.width;
        let h = self.buffer.height;
        let ghost ps = pixels@;
        proof {
            assert(ps.subrange(0, ps.len() as int) =~= ps);
        }
        let mut i: usize = 0;
        while i < pixels.len()
            invariant
                i <= ps.len(),
                ps == pixels@,
                *final(self.buffer) == *final(old(self).buffer),
                self.buffer.width == w,
                self.buffer.height == h,
                self.buffer.format == (*old(self).buffer).format,
                (*self.buffer).wf(),
                forall|j: int|
                    0 <= j < ps.len() ==> (#[trigger] ps[j]).1.0.wf() && ps[j].1.0.format
                        == self.buffer.format,
                blend_pixels_spec((*old(self).buffer).cells(), w as int, h as int, ps)
                    == blend_pixels_spec(self.buffer.buf@, w as int, h as int, ps.subrange(
                    i as int,
                    ps.len() as int,
                )),
            decreases ps.len() - i,
        {
            let ghost rest = ps.subrange(i as int, ps.len() as int);
            proof {
                assert(rest[0] == ps[i as int]);
                assert(rest.subrange(1, rest.len() as int) =~= ps.subrange(
                    i as int + 1,
                    ps.len() as int,
                ));
            }
            let p = pixels[i];
            let px = p.0.x;
            let py = p.0.y;
            if px >= 0 && py >= 0 && (px as u32) < w && (py as u32) < h {
                let ghost prev = self.buffer.buf@;
                let j = self.buffer.idx(px as u32, py as u32);
                let bg = self.buffer.buf[j];
                let c = p.1.blend(bg);
                proof {
                    lemma_blend_color_wf(p.1.0, p.1.1, bg);
                }
                self.buffer.buf[j] = c;
                proof {
                    assert(self.buffer.buf@ == blend_pixel_spec(prev, w as int, h as int, ps[i as int]));
                }
            }
            i += 1;
        }
        proof {
            assert(ps.subrange(ps.len() as int, ps.len() as int) =~= Seq::<AlphaPixel>::empty());
        }
    }

    /// Clip the rectangle against the framebuffer's bounds, then blend
    /// `color` over every cell of the clipped span. A fully transparent color
    /// is a complete no-op.
    pub fn fill_solid(&mut self, area: &Rectangle, color: Rgba)
        requires
            (*old(self).buffer).wf(),
            color.0.wf(),
            color.0.format == (*old(self).buffer).format,
        ensures
            *final(final(self).buffer) == *final(old(self).buffer),
            (*final(self).buffer).wf(),
            (*final(self).buffer).same_shape(*old(self).buffer),
            (*final(self).buffer).cells().len() == (*old(self).buffer).cells().len(),
            forall|x: int, y: int|
                (*old(self).buffer).in_bounds(x, y) ==> #[trigger] (*final(self).buffer).cell(x, y)
                    == if area.contains(x, y) {
                    blend_color_spec(color.0, color.1, (*old(self).buffer).cell(x, y))
                } else {
                    (*old(self).buffer).cell(x, y)
                },
    {
        if color.a() == 0 {
            return ;
        }
        let bounds = self.buffer.bounding_box();
        let clip = area.intersection(&bounds);
        if clip.is_empty() {
            proof {
                assert forall|x: int, y: int|
                    0 <= x < self.buffer.width && 0 <= y < self.buffer.height implies !area.contains(
                    x,
                    y,
                ) by {
                    assert(!clip.contains(x, y));
                    assert(bounds.contains(x, y));
                }
            }
            return ;
        }
        let w = self.buffer.width;
        let h = self.buffer.height;
        let cx0: u32 = clip.top_left.x as u32;
        let cy0: u32 = clip.top_left.y as u32;
        let cw: u32 = clip.size.width;
        let ch: u32 = clip.size.height;
        let mut ry: u32 = 0;
        while ry < ch
            invariant
                ry <= ch,
                *final(self.buffer) == *final(old(self).buffer),
                self.buffer.width == w,
                self.buffer.height == h,
                self.buffer.format == (*old(self).buffer).format,
                (*self.buffer).wf(),
                (*old(self).buffer).wf(),
                color.0.wf(),
                color.0.format == (*old(self).buffer).format,
                self.buffer.buf@.len() == (*old(self).buffer).buf@.len(),
                cx0 == clip.top_left.x,
                cy0 == clip.top_left.y,
                cw == clip.size.width,
                ch == clip.size.height,
                cx0 + cw <= w,
                cy0 + ch <= h,
                forall|x: int, y: int|
                    0 <= x < w && 0 <= y < h ==> (clip.contains(x, y) <==> area.contains(x, y)),
                forall|x2: int, y2: int|
                    0 <= x2 < w && 0 <= y2 < h ==> #[trigger] cell_at(
                        self.buffer.buf@,
                        w as int,
                        x2,
                        y2,
                    ) == if clip.contains(x2, y2) && y2 < cy0 + ry {
                        blend_color_spec(
                            color.0,
                            color.1,
                            cell_at((*old(self).buffer).buf@, w as int, x2, y2),
                        )
                    } else {
                        cell_at((*old(self).buffer).buf@, w as int, x2, y2)
                    },
            decreases ch - ry,
        {
            let y = cy0 + ry;
            let mut rx: u32 = 0;
            while rx < cw
                invariant
                    rx <= cw,
                    ry < ch,
                    y == cy0 + ry,
                    *final(self.buffer) == *final(old(self).buffer),
                    self.buffer.width == w,
                    self.buffer.height == h,
                    self.buffer.format == (*old(self).buffer).format,
                    (*self.buffer).wf(),
                    (*old(self).buffer).wf(),
                    color.0.wf(),
                    color.0.format == (*old(self).buffer).format,
                    self.buffer.buf@.len() == (*old(self).buffer).buf@.len(),
                    cx0 == clip.top_left.x,
                    cy0 == clip.top_left.y,
                    cw == clip.size.width,
                    ch == clip.size.height,
                    cx0 + cw <= w,
                    cy0 + ch <= h,
                    forall|x2: int, y2: int|
                        0 <= x2 < w && 0 <= y2 < h ==> (clip.contains(x2, y2) <==> area.contains(
                            x2,
                            y2,
                        )),
                    forall|x2: int, y2: int|
                        0 <= x2 < w && 0 <= y2 < h ==> #[trigger] cell_at(
                            self.buffer.buf@,
                            w as int,
                            x2,
                            y2,
                        ) == if clip.contains(x2, y2) && (y2 < y || (y2 == y && x2 < cx0 + rx)) {
                            blend_color_spec(
                                color.0,
                                color.1,
                                cell_at((*old(self).buffer).buf@, w as int, x2, y2),
                            )
                        } else {
                            cell_at((*old(self).buffer).buf@, w as int, x2, y2)
                        },
                decreases cw - rx,
            {
                let x = cx0 + rx;
                let ghost prev = self.buffer.buf@;
                let i = self.buffer.idx(x, y);
                let bg = self.buffer.buf[i];
                let c = color.blend(bg);
                proof {
                    lemma_blend_color_wf(color.0, color.1, bg);
                }
                self.buffer.buf[i] = c;
                proof {
                    lemma_cell_at_update(prev, w as int, h as int, x as int, y as int, c);
                }
                rx += 1;
            }
            ry += 1;
        }
    }

    /// Clip the rectangle against the framebuffer's bounds and blend the
    /// streamed colors over the clipped span, row by row. The stream is
    /// always advanced by exactly `area.width * area.height` colors (or to
    /// its end, if fewer remain), whatever the clip outcome.
    pub fn fill_contiguous(&mut self, area: &Rectangle, colors: &mut ColorStream<Rgba>)
        requires
            (*old(self).buffer).wf(),
            old(colors).wf(),
            forall|i: int|
                0 <= i < old(colors).items@.len() ==> (#[trigger] old(colors).items@[i]).0.wf()
                    && old(colors).items@[i].0.format == (*old(self).buffer).format,
        ensures
            *final(final(self).buffer) == *final(old(self).buffer),
            (*final(self).buffer).wf(),
            (*final(self).buffer).same_shape(*old(self).buffer),
            (*final(self).buffer).cells().len() == (*old(self).buffer).cells().len(),
            final(colors).wf(),
            final(colors).items@ == old(colors).items@,
            final(colors).pos as int == if old(colors).pos + area.area_spec() <= old(
                colors,
            ).items@.len() {
                old(colors).pos + area.area_spec()
            } else {
                old(colors).items@.len() as int
            },
            forall|x: int, y: int|
                (*old(self).buffer).in_bounds(x, y) ==> #[trigger] (*final(self).buffer).cell(x, y)
                    == if area.contains(x, y) && stream_index(old(colors).pos as int, *area, x, y)
                    < old(colors).items@.len() {
                    blend_color_spec(
                        old(colors).items@[stream_index(old(colors).pos as int, *area, x, y)].0,
                        old(colors).items@[stream_index(old(colors).pos as int, *area, x, y)].1,
                        (*old(self).buffer).cell(x, y),
                    )
                } else {
                    (*old(self).buffer).cell(x, y)
                },
    {
        proof {
            assert(area.size.width as int * area.size.height as int <= 0xffff_ffff_0000_0000)
                by (nonlinear_arith)
                requires
                    area.size.width as int <= 0xffff_ffff,
                    area.size.height as int <= 0xffff_ffff,
            ;
        }
        let total: u64 = area.size.width as u64 * area.size.height as u64;
        let bounds = self.buffer.bounding_box();
        let clip = area.intersection(&bounds);
        let ghost pos0 = old(colors).pos as int;
        let ghost items0 = old(colors).items@;
        if clip.is_empty() {
            proof {
                assert forall|x: int, y: int|
                    0 <= x < self.buffer.width && 0 <= y < self.buffer.height implies !area.contains(
                    x,
                    y,
                ) by {
                    assert(!clip.contains(x, y));
                    assert(bounds.contains(x, y));
                }
            }
            colors.skip(total);
            return ;
        }
        let w = self.buffer.width;
        let h = self.buffer.height;
        let cx0: u32 = clip.top_left.x as u32;
        let cy0: u32 = clip.top_left.y as u32;
        let cw: u32 = clip.size.width;
        let ch: u32 = clip.size.height;
        let ax = area.top_left.x;
        let ay = area.top_left.y;
        let aw = area.size.width;
        let ah = area.size.height;
        let npos: usize = colors.pos;
        let nlen: usize = colors.items.len();
        let avail: usize = nlen - npos;
        let mut ry: u32 = 0;
        while ry < ch
            invariant
                ry <= ch,
                *final(self.buffer) == *final(old(self).buffer),
                self.buffer.width == w,
                self.buffer.height == h,
                self.buffer.format == (*old(self).buffer).format,
                (*self.buffer).wf(),
                (*old(self).buffer).wf(),
                self.buffer.buf@.len() == (*old(self).buffer).buf@.len(),
                colors.pos == npos,
                colors.items@ == items0,
                npos as int == pos0,
                npos <= nlen,
                nlen == items0.len(),
                avail == nlen - npos,
                forall|i: int|
                    0 <= i < items0.len() ==> (#[trigger] items0[i]).0.wf() && items0[i].0.format
                        == (*old(self).buffer).format,
                cx0 == clip.top_left.x,
                cy0 == clip.top_left.y,
                cw == clip.size.width,
                ch == clip.size.height,
                ax == area.top_left.x,
                ay == area.top_left.y,
                aw == area.size.width,
                ah == area.size.height,
                cx0 + cw <= w,
                cy0 + ch <= h,
                ay <= cy0,
                cy0 + ch <= ay + ah,
                ax <= cx0,
                cx0 + cw <= ax + aw,
                forall|x: int, y: int|
                    0 <= x < w && 0 <= y < h ==> (clip.contains(x, y) <==> area.contains(x, y)),
                forall|x2: int, y2: int|
                    0 <= x2 < w && 0 <= y2 < h ==> #[trigger] cell_at(
                        self.buffer.buf@,
                        w as int,
                        x2,
                        y2,
                    ) == if clip.contains(x2, y2) && y2 < cy0 + ry && stream_index(
                        pos0,
                        *area,
                        x2,
                        y2,
                    ) < nlen {
                        blend_color_spec(
                            items0[stream_index(pos0, *area, x2, y2)].0,
                            items0[stream_index(pos0, *area, x2, y2)].1,
                            cell_at((*old(self).buffer).buf@, w as int, x2, y2),
                        )
                    } else {
                        cell_at((*old(self).buffer).buf@, w as int, x2, y2)
                    },
            decreases ch - ry,
        {
            let y = cy0 + ry;
            let mut rx: u32 = 0;
            while rx < cw
                invariant
                    rx <= cw,
                    ry < ch,
                    y == cy0 + ry,
                    *final(self.buffer) == *final(old(self).buffer),
                    self.buffer.width == w,
                    self.buffer.height == h,
                    self.buffer.format == (*old(self).buffer).format,
                    (*self.buffer).wf(),
                    (*old(self).buffer).wf(),
                    self.buffer.buf@.len() == (*old(self).buffer).buf@.len(),
                    colors.pos == npos,
                    colors.items@ == items0,
                    npos as int == pos0,
                    npos <= nlen,
                    nlen == items0.len(),
                    avail == nlen - npos,
                    forall|i: int|
                        0 <= i < items0.len() ==> (#[trigger] items0[i]).0.wf()
                            && items0[i].0.format == (*old(self).buffer).format,
                    cx0 == clip.top_left.x,
                    cy0 == clip.top_left.y,
                    cw == clip.size.width,
                    ch == clip.size.height,
                    ax == area.top_left.x,
                    ay == area.top_left.y,
                    aw == area.size.width,
                    ah == area.size.height,
                    cx0 + cw <= w,
                    cy0 + ch <= h,
                    ay <= cy0,
                    cy0 + ch <= ay + ah,
                    ax <= cx0,
                    cx0 + cw <= ax + aw,
                    forall|x2: int, y2: int|
                        0 <= x2 < w && 0 <= y2 < h ==> (clip.contains(x2, y2) <==> area.contains(
                            x2,
                            y2,
                        )),
                    forall|x2: int, y2: int|
                        0 <= x2 < w && 0 <= y2 < h ==> #[trigger] cell_at(
                            self.buffer.buf@,
                            w as int,
                            x2,
                            y2,
                        ) == if clip.contains(x2, y2) && (y2 < y || (y2 == y && x2 < cx0 + rx))
                            && stream_index(pos0, *area, x2, y2) < nlen {
                            blend_color_spec(
                                items0[stream_index(pos0, *area, x2, y2)].0,
                                items0[stream_index(pos0, *area, x2, y2)].1,
                                cell_at((*old(self).buffer).buf@, w as int, x2, y2),
                            )
                        } else {
                            cell_at((*old(self).buffer).buf@, w as int, x2, y2)
                        },
                decreases cw - rx,
            {
                let x = cx0 + rx;
                let dy: u64 = (y as i64 - ay as i64) as u64;
                let dx: u64 = (x as i64 - ax as i64) as u64;
                proof {
                    assert((dy as int * aw as int + dx as int) < (ah as int * aw as int))
                        by (nonlinear_arith)
                        requires
                            0 <= (dy as int),
                            (dy as int) < (ah as int),
                            0 <= (dx as int),
                            (dx as int) < (aw as int),
                    ;
                    assert(ah as int * aw as int <= 0xffff_ffff_0000_0000) by (nonlinear_arith)
                        requires
                            ah as int <= 0xffff_ffff,
                            aw as int <= 0xffff_ffff,
                    ;
                }
                let rel: u64 = dy * (aw as u64) + dx;
                proof {
                    assert(rel as int == stream_index(pos0, *area, x as int, y as int) - pos0);
                }
                if rel < avail as u64 {
                    let fgp = colors.items[npos + rel as usize];
                    let ghost prev = self.buffer.buf@;
                    let i = self.buffer.idx(x, y);
                    let bg = self.buffer.buf[i];
                    let c = fgp.blend(bg);
                    proof {
                        lemma_blend_color_wf(fgp.0, fgp.1, bg);
                    }
                    self.buffer.buf[i] = c;
                    proof {
                        lemma_cell_at_update(prev, w as int, h as int, x as int, y as int, c);
                    }
                }
                rx += 1;
            }
            ry += 1;
        }
        colors.skip(total);
    }

    /// Blend `color` over every cell. A fully transparent color is a
    /// complete no-op.
    pub fn clear(&mut self, color: Rgba)
        requires
            (*old(self).buffer).wf(),
            color.0.wf(),
            color.0.format == (*old(self).buffer).format,
        ensures
            *final(final(self).buffer) == *final(old(self).buffer),
            (*final(self).buffer).wf(),
            (*final(self).buffer).same_shape(*old(self).buffer),
            (*final(self).buffer).cells().len() == (*old(self).buffer).cells().len(),
            forall|i: int|
                0 <= i < (*old(self).buffer).cells().len()
                    ==> #[trigger] (*final(self).buffer).cells()[i] == blend_color_spec(
                    color.0,
                    color.1,
                    (*old(self).buffer).cells()[i],
                ),
    {
        if color.a() == 0 {
            return ;
        }
        let n = self.buffer.buf.len();
        let mut i: usize = 0;
        while i < n
            invariant
                i <= n,
                n == self.buffer.buf@.len(),
                *final(self.buffer) == *final(old(self).buffer),
                (*self.buffer).wf(),
                (*self.buffer).same_shape(*old(self).buffer),
                self.buffer.buf@.len() == (*old(self).buffer).buf@.len(),
                color.0.wf(),
                color.0.format == self.buffer.format,
                forall|j: int|
                    0 <= j < i ==> #[trigger] self.buffer.buf@[j] == blend_color_spec(
                        color.0,
                        color.1,
                        (*old(self).buffer).buf@[j],
                    ),
                forall|j: int|
                    i <= j < n ==> #[trigger] self.buffer.buf@[j] == (*old(self).buffer).buf@[j],
            decreases n - i,
        {
            let bg = self.buffer.buf[i];
            let c = color.blend(bg);
            proof {
                lemma_blend_color_wf(color.0, color.1, bg);
            }
            self.buffer.buf[i] = c;
            i += 1;
        }
    }
}

} // verus!
