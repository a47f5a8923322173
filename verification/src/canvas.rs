//! Buffering strategies and the canvas composition root.
//!
//! A buffering strategy wraps one or two framebuffers, forwards the write
//! operations to the "current" one, and can flush the current contents to an
//! external display sink. The double-buffered strategy swaps its two buffers
//! after a successful flush — and only after a successful one, so that a
//! failed presentation can be retried with the same contents.

use vstd::prelude::*;
use crate::alpha::AlphaCanvas;
use crate::framebuffer::Framebuffer;
use crate::framebuffer::Pixel;
use crate::framebuffer::draw_pixels_spec;
use crate::framebuffer::stream_index;
use crate::geometry::Rectangle;
use crate::geometry::Size;
use crate::rgba::Color;
use crate::rgba::ColorFormat;
use crate::stream::ColorStream;

verus! {

/// The external display sink: accepts a rectangular region plus a row-major
/// color sequence and reports success or its own failure. Nothing is assumed
/// about its behavior; implementations live outside the library.
pub trait FlushTarget {
    /// The sink's failure type.
    type Error;

    /// The sink's dimensions in pixels.
    fn size(&self) -> Size;

    /// Receive a rectangular region of colors, row by row.
    fn fill_region(&mut self, area: &Rectangle, colors: &Vec<Color>) -> Result<(), Self::Error>;
}

/// A buffering strategy: one or two framebuffers behind the four write
/// operations, plus a flush that presents the current buffer to a sink.
///
/// `flush_ok_cells` names the contents the current buffer holds after a
/// successful flush: unchanged for a single buffer, the previous reference
/// buffer for a double buffer. A failed flush leaves the strategy exactly as
/// it was, so the same contents can be retried.
pub trait BufferStrategy: Sized {
    /// The strategy's structural invariant.
    spec fn wf(&self) -> bool;

    /// Width of the wrapped framebuffers.
    spec fn width_spec(&self) -> u32;

    /// Height of the wrapped framebuffers.
    spec fn height_spec(&self) -> u32;

    /// Color format of the wrapped framebuffers.
    spec fn format_spec(&self) -> ColorFormat;

    /// The current buffer's cells, row by row.
    spec fn cells(&self) -> Seq<Color>;

    /// What the current buffer holds after a successful flush.
    spec fn flush_ok_cells(&self) -> Seq<Color>;

    /// Dimensions and format agree with another state of the strategy.
    open spec fn same_shape(&self, other: Self) -> bool {
        self.width_spec() == other.width_spec() && self.height_spec() == other.height_spec()
            && self.format_spec() == other.format_spec()
    }

    /// The grid's dimensions.
    fn size(&self) -> (s: Size)
        requires
            self.wf(),
        ensures
            s == (Size { width: self.width_spec(), height: self.height_spec() }),
    ;

    /// Apply each drawing request to the current buffer (see
    /// `Framebuffer::draw_iter`).
    fn draw_iter(&mut self, pixels: &Vec<Pixel>)
        requires
            old(self).wf(),
            forall|i: int|
                0 <= i < pixels@.len() ==> (#[trigger] pixels@[i]).1.wf() && pixels@[i].1.format
                    == old(self).format_spec(),
        ensures
            final(self).wf(),
            final(self).same_shape(*old(self)),
            final(self).cells() == draw_pixels_spec(
                old(self).cells(),
                old(self).width_spec() as int,
                old(self).height_spec() as int,
                pixels@,
            ),
    ;

    /// Write the streamed colors into the current buffer's clipped span (see
    /// `Framebuffer::fill_contiguous`).
    fn fill_contiguous(&mut self, area: &Rectangle, colors: &mut ColorStream<Color>)
        requires
            old(self).wf(),
            old(colors).wf(),
            forall|i: int|
                0 <= i < old(colors).items@.len() ==> (#[trigger] old(colors).items@[i]).wf()
                    && old(colors).items@[i].format == old(self).format_spec(),
        ensures
            final(self).wf(),
            final(self).same_shape(*old(self)),
            final(colors).wf(),
            final(colors).items@ == old(colors).items@,
            final(colors).pos as int == if old(colors).pos + area.area_spec() <= old(
                colors,
            ).items@.len() {
                old(colors).pos + area.area_spec()
            } else {
                old(colors).items@.len() as int
            },
            final(self).cells().len() == old(self).cells().len(),
            forall|x: int, y: int|
                0 <= x < old(self).width_spec() && 0 <= y < old(self).height_spec()
                    ==> #[trigger] final(self).cells()[y * old(self).width_spec() + x]
                    == if area.contains(x, y) && stream_index(old(colors).pos as int, *area, x, y)
                    < old(colors).items@.len() {
                    old(colors).items@[stream_index(old(colors).pos as int, *area, x, y)]
                } else {
                    old(self).cells()[y * old(self).width_spec() + x]
                },
    ;

    /// Overwrite the clipped span of the current buffer with one color (see
    /// `Framebuffer::fill_solid`).
    fn fill_solid(&mut self, area: &Rectangle, color: Color)
        requires
            old(self).wf(),
            color.wf(),
            color.format == old(self).format_spec(),
        ensures
            final(self).wf(),
            final(self).same_shape(*old(self)),
            final(self).cells().len() == old(self).cells().len(),
            forall|x: int, y: int|
                0 <= x < old(self).width_spec() && 0 <= y < old(self).height_spec()
                    ==> #[trigger] final(self).cells()[y * old(self).width_spec() + x]
                    == if area.contains(x, y) {
                    color
                } else {
                    old(self).cells()[y * old(self).width_spec() + x]
                },
    ;

    /// Overwrite every cell of the current buffer.
    fn clear(&mut self, color: Color)
        requires
            old(self).wf(),
            color.wf(),
            color.format == old(self).format_spec(),
        ensures
            final(self).wf(),
            final(self).same_shape(*old(self)),
            final(self).cells().len() == old(self).cells().len(),
            forall|i: int|
                0 <= i < final(self).cells().len() ==> #[trigger] final(self).cells()[i] == color,
    ;

    /// Present the current buffer to the sink as one contiguous full-buffer
    /// fill. On success the buffers may swap: the current contents become
    /// `flush_ok_cells()` of the old state, and what was current becomes the
    /// contents a later successful flush will reveal. On failure the
    /// strategy is left exactly as it was, so the caller may retry.
    fn flush<T: FlushTarget>(&mut self, target: &mut T) -> (r: Result<(), T::Error>)
        requires
            old(self).wf(),
        ensures
            final(self).wf(),
            final(self).same_shape(*old(self)),
            r is Ok ==> final(self).cells() == old(self).flush_ok_cells(),
            r is Ok ==> final(self).flush_ok_cells() == old(self).cells(),
            r is Err ==> *final(self) == *old(self),
    ;
}

/// Access to the framebuffer that currently receives writes.
pub trait HasFramebuffer: BufferStrategy {
    /// Borrow the current framebuffer exclusively.
    fn current_mut(&mut self) -> (fb: &mut Framebuffer)
        requires
            old(self).wf(),
        ensures
            (*fb).wf(),
            (*fb).cells() == old(self).cells(),
            (*fb).width == old(self).width_spec(),
            (*fb).height == old(self).height_spec(),
            (*fb).format == old(self).format_spec(),
            final(self).cells() == (*final(fb)).cells(),
            final(self).width_spec() == (*final(fb)).width,
            final(self).height_spec() == (*final(fb)).height,
            final(self).format_spec() == (*final(fb)).format,
            final(self).flush_ok_cells() == old(self).flush_ok_cells() || final(self).flush_ok_cells()
                == (*final(fb)).cells(),
            ((*final(fb)).wf() && (*final(fb)).width == old(self).width_spec()
                && (*final(fb)).height == old(self).height_spec()
                && (*final(fb)).format == old(self).format_spec()) ==> final(self).wf(),
    ;
}

/// Double buffering: draw into `current`; a successful flush presents
/// `current` to the sink and then swaps it with `reference`, so the buffer
/// just presented is kept while drawing resumes into the older one. The
/// reference buffer is never read back by the library itself; it is an
/// extension point (for dirty-rectangle diffing and the like).
pub struct DoubleBuffer {
    /// The buffer that receives writes and is presented next.
    pub current: Framebuffer,
    /// The buffer presented by the previous successful flush.
    pub reference: Framebuffer,
}

impl DoubleBuffer {
    /// Create a double-buffered strategy with two black-initialized buffers.
    pub fn new(width: u32, height: u32, format: ColorFormat) -> (s: DoubleBuffer)
        requires
            width as int * height as int <= usize::MAX as int,
        ensures
            s.wf(),
            s.width_spec() == width,
            s.height_spec() == height,
            s.format_spec() == format,
            s.cells().len() == width as int * height as int,
            forall|i: int|
                0 <= i < s.cells().len() ==> #[trigger] s.cells()[i] == Color::black_spec(format),
            s.flush_ok_cells().len() == width as int * height as int,
            forall|i: int|
                0 <= i < s.flush_ok_cells().len() ==> #[trigger] s.flush_ok_cells()[i]
                    == Color::black_spec(format),
    {
        DoubleBuffer {
            current: Framebuffer::new(width, height, format),
            reference: Framebuffer::new(width, height, format),
        }
    }
}

impl BufferStrategy for DoubleBuffer {
    open spec fn wf(&self) -> bool {
        self.current.wf() && self.reference.wf() && self.reference.same_shape(self.current)
    }

    open spec fn width_spec(&self) -> u32 {
        self.current.width
    }

    open spec fn height_spec(&self) -> u32 {
        self.current.height
    }

    open spec fn format_spec(&self) -> ColorFormat {
        self.current.format
    }

    open spec fn cells(&self) -> Seq<Color> {
        self.current.cells()
    }

    open spec fn flush_ok_cells(&self) -> Seq<Color> {
        self.reference.cells()
    }

    fn size(&self) -> (s: Size) {
        self.current.size()
    }

    fn draw_iter(&mut self, pixels: &Vec<Pixel>) {
        self.current.draw_iter(pixels)
    }

    fn fill_contiguous(&mut self, area: &Rectangle, colors: &mut ColorStream<Color>) {
        let ghost pre = *self;
        let ghost pos0 = colors.pos as int;
        self.current.fill_contiguous(area, colors);
        proof {
            assert forall|x: int, y: int|
                0 <= x < pre.width_spec() && 0 <= y < pre.height_spec()
                    implies #[trigger] self.cells()[y * pre.width_spec() + x] == (if area.contains(
                    x,
                    y,
                ) && stream_index(pos0, *area, x, y) < old(colors).items@.len() {
                    old(colors).items@[stream_index(pos0, *area, x, y)]
                } else {
                    pre.cells()[y * pre.width_spec() + x]
                }) by {
                assert(self.current.cell(x, y) == if area.contains(x, y) && stream_index(
                    pos0,
                    *area,
                    x,
                    y,
                ) < old(colors).items@.len() {
                    old(colors).items@[stream_index(pos0, *area, x, y)]
                } else {
                    pre.current.cell(x, y)
                });
            }
        }
    }

    fn fill_solid(&mut self, area: &Rectangle, color: Color) {
        let ghost pre = *self;
        self.current.fill_solid(area, color);
        proof {
            assert forall|x: int, y: int|
                0 <= x < pre.width_spec() && 0 <= y < pre.height_spec()
                    implies #[trigger] self.cells()[y * pre.width_spec() + x] == (if area.contains(
                    x,
                    y,
                ) {
                    color
                } else {
                    pre.cells()[y * pre.width_spec() + x]
                }) by {
                assert(self.current.cell(x, y) == if area.contains(x, y) {
                    color
                } else {
                    pre.current.cell(x, y)
                });
            }
        }
    }

    fn clear(&mut self, color: Color) {
        self.current.clear(color)
    }

    fn flush<T: FlushTarget>(&mut self, target: &mut T) -> (r: Result<(), T::Error>) {
        let area = self.current.bounding_box();
        let colors = self.current.iter_colors();
        match target.fill_region(&area, &colors) {
            Ok(_) => {
                core::mem::swap(&mut self.reference, &mut self.current);
                Ok(())
            },
            Err(e) => Err(e),
        }
    }
}

impl HasFramebuffer for DoubleBuffer {
    fn current_mut(&mut self) -> (fb: &mut Framebuffer) {
        &mut self.current
    }
}

/// Single buffering: one framebuffer; flush pushes it to the sink and
/// nothing swaps.
pub struct SingleBuffer {
    /// The one buffer, which both receives writes and is presented.
    pub current: Framebuffer,
}

impl SingleBuffer {
    /// Create a single-buffered strategy with black-initialized cells.
    pub fn new(width: u32, height: u32, format: ColorFormat) -> (s: SingleBuffer)
        requires
            width as int * height as int <= usize::MAX as int,
        ensures
            s.wf(),
            s.width_spec() == width,
            s.height_spec() == height,
            s.format_spec() == format,
            s.cells().len() == width as int * height as int,
            forall|i: int|
                0 <= i < s.cells().len() ==> #[trigger] s.cells()[i] == Color::black_spec(format),
    {
        SingleBuffer { current: Framebuffer::new(width, height, format) }
    }
}

impl BufferStrategy for SingleBuffer {
    open spec fn wf(&self) -> bool {
        self.current.wf()
    }

    open spec fn width_spec(&self) -> u32 {
        self.current.width
    }

    open spec fn height_spec(&self) -> u32 {
        self.current.height
    }

    open spec fn format_spec(&self) -> ColorFormat {
        self.current.format
    }

    open spec fn cells(&self) -> Seq<Color> {
        self.current.cells()
    }

    open spec fn flush_ok_cells(&self) -> Seq<Color> {
        self.current.cells()
    }

    fn size(&self) -> (s: Size) {
        self.current.size()
    }

    fn draw_iter(&mut self, pixels: &Vec<Pixel>) {
        self.current.draw_iter(pixels)
    }

    fn fill_contiguous(&mut self, area: &Rectangle, colors: &mut ColorStream<Color>) {
        let ghost pre = *self;
        let ghost pos0 = colors.pos as int;
        self.current.fill_contiguous(area, colors);
        proof {
            assert forall|x: int, y: int|
                0 <= x < pre.width_spec() && 0 <= y < pre.height_spec()
                    implies #[trigger] self.cells()[y * pre.width_spec() + x] == (if area.contains(
                    x,
                    y,
                ) && stream_index(pos0, *area, x, y) < old(colors).items@.len() {
                    old(colors).items@[stream_index(pos0, *area, x, y)]
                } else {
                    pre.cells()[y * pre.width_spec() + x]
                }) by {
                assert(self.current.cell(x, y) == if area.contains(x, y) && stream_index(
                    pos0,
                    *area,
                    x,
                    y,
                ) < old(colors).items@.len() {
                    old(colors).items@[stream_index(pos0, *area, x, y)]
                } else {
                    pre.current.cell(x, y)
                });
            }
        }
    }

    fn fill_solid(&mut self, area: &Rectangle, color: Color) {
        let ghost pre = *self;
        self.current.fill_solid(area, color);
        proof {
            assert forall|x: int, y: int|
                0 <= x < pre.width_spec() && 0 <= y < pre.height_spec()
                    implies #[trigger] self.cells()[y * pre.width_spec() + x] == (if area.contains(
                    x,
                    y,
                ) {
                    color
                } else {
                    pre.cells()[y * pre.width_spec() + x]
                }) by {
                assert(self.current.cell(x, y) == if area.contains(x, y) {
                    color
                } else {
                    pre.current.cell(x, y)
                });
            }
        }
    }

    fn clear(&mut self, color: Color) {
        self.current.clear(color)
    }

    fn flush<T: FlushTarget>(&mut self, target: &mut T) -> (r: Result<(), T::Error>) {
        let area = self.current.bounding_box();
        let colors = self.current.iter_colors();
        target.fill_region(&area, &colors)
    }
}

impl HasFramebuffer for SingleBuffer {
    fn current_mut(&mut self) -> (fb: &mut Framebuffer) {
        &mut self.current
    }
}

/// The composition root: a buffering strategy bound to an external sink for
/// the canvas's lifetime. Writes go to the strategy's current buffer; a
/// flush presents it to the bound sink.
pub struct Canvas<'a, T: FlushTarget, S: BufferStrategy> {
    /// The buffering strategy, owning the pixel store.
    pub strategy: S,
    /// The bound display sink.
    pub target: &'a mut T,
}

impl<'a, T: FlushTarget, S: BufferStrategy> Canvas<'a, T, S> {
    /// Construct a canvas from an explicit strategy.
    pub fn with_strategy(target: &'a mut T, strategy: S) -> (c: Canvas<'a, T, S>)
        ensures
            c.strategy == strategy,
    {
        Canvas { strategy, target }
    }

    /// Present the current buffer to the bound sink; see
    /// `BufferStrategy::flush`.
    pub fn flush(&mut self) -> (r: Result<(), T::Error>)
        requires
            old(self).strategy.wf(),
        ensures
            final(self).strategy.wf(),
            final(self).strategy.same_shape(old(self).strategy),
            r is Ok ==> final(self).strategy.cells() == old(self).strategy.flush_ok_cells(),
            r is Ok ==> final(self).strategy.flush_ok_cells() == old(self).strategy.cells(),
            r is Err ==> final(self).strategy == old(self).strategy,
    {
        self.strategy.flush(&mut *self.target)
    }

    /// The strategy's dimensions.
    pub fn size(&self) -> (s: Size)
        requires
            self.strategy.wf(),
        ensures
            s == (Size { width: self.strategy.width_spec(), height: self.strategy.height_spec() }),
    {
        self.strategy.size()
    }

    /// Apply each drawing request to the current buffer; see
    /// `BufferStrategy::draw_iter`.
    pub fn draw_iter(&mut self, pixels: &Vec<Pixel>)
        requires
            old(self).strategy.wf(),
            forall|i: int|
                0 <= i < pixels@.len() ==> (#[trigger] pixels@[i]).1.wf() && pixels@[i].1.format
                    == old(self).strategy.format_spec(),
        ensures
            final(self).strategy.wf(),
            final(self).strategy.same_shape(old(self).strategy),
            final(self).strategy.cells() == draw_pixels_spec(
                old(self).strategy.cells(),
                old(self).strategy.width_spec() as int,
                old(self).strategy.height_spec() as int,
                pixels@,
            ),
    {
        self.strategy.draw_iter(pixels)
    }

    /// Write the streamed colors into the current buffer's clipped span; see
    /// `BufferStrategy::fill_contiguous`.
    pub fn fill_contiguous(&mut self, area: &Rectangle, colors: &mut ColorStream<Color>)
        requires
            old(self).strategy.wf(),
            old(colors).wf(),
            forall|i: int|
                0 <= i < old(colors).items@.len() ==> (#[trigger] old(colors).items@[i]).wf()
                    && old(colors).items@[i].format == old(self).strategy.format_spec(),
        ensures
            final(self).strategy.wf(),
            final(self).strategy.same_shape(old(self).strategy),
            final(colors).wf(),
            final(colors).items@ == old(colors).items@,
            final(colors).pos as int == if old(colors).pos + area.area_spec() <= old(
                colors,
            ).items@.len() {
                old(colors).pos + area.area_spec()
            } else {
                old(colors).items@.len() as int
            },
            final(self).strategy.cells().len() == old(self).strategy.cells().len(),
            forall|x: int, y: int|
                0 <= x < old(self).strategy.width_spec() && 0 <= y < old(
                    self,
                ).strategy.height_spec() ==> #[trigger] final(self).strategy.cells()[y * old(
                    self,
                ).strategy.width_spec() + x] == if area.contains(x, y) && stream_index(
                    old(colors).pos as int,
                    *area,
                    x,
                    y,
                ) < old(colors).items@.len() {
                    old(colors).items@[stream_index(old(colors).pos as int, *area, x, y)]
                } else {
                    old(self).strategy.cells()[y * old(self).strategy.width_spec() + x]
                },
    {
        self.strategy.fill_contiguous(area, colors)
    }

    /// Overwrite the clipped span of the current buffer with one color; see
    /// `BufferStrategy::fill_solid`.
    pub fn fill_solid(&mut self, area: &Rectangle, color: Color)
        requires
            old(self).strategy.wf(),
            color.wf(),
            color.format == old(self).strategy.format_spec(),
        ensures
            final(self).strategy.wf(),
            final(self).strategy.same_shape(old(self).strategy),
            final(self).strategy.cells().len() == old(self).strategy.cells().len(),
            forall|x: int, y: int|
                0 <= x < old(self).strategy.width_spec() && 0 <= y < old(
                    self,
                ).strategy.height_spec() ==> #[trigger] final(self).strategy.cells()[y * old(
                    self,
                ).strategy.width_spec() + x] == if area.contains(x, y) {
                    color
                } else {
                    old(self).strategy.cells()[y * old(self).strategy.width_spec() + x]
                },
    {
        self.strategy.fill_solid(area, color)
    }

    /// Overwrite every cell of the current buffer.
    pub fn clear(&mut self, color: Color)
        requires
            old(self).strategy.wf(),
            color.wf(),
            color.format == old(self).strategy.format_spec(),
        ensures
            final(self).strategy.wf(),
            final(self).strategy.same_shape(old(self).strategy),
            final(self).strategy.cells().len() == old(self).strategy.cells().len(),
            forall|i: int|
                0 <= i < final(self).strategy.cells().len()
                    ==> #[trigger] final(self).strategy.cells()[i] == color,
    {
        self.strategy.clear(color)
    }
}

impl<'a, T: FlushTarget, S: BufferStrategy + HasFramebuffer> Canvas<'a, T, S> {
    /// Borrow the strategy's current buffer as a transient alpha-compositing
    /// surface, valid for the duration of the borrow. Alpha-composited and
    /// solid-color writes share one consistent pixel store.
    pub fn alpha(&mut self) -> (c: AlphaCanvas<'_>)
        requires
            old(self).strategy.wf(),
        ensures
            (*c.buffer).wf(),
            (*c.buffer).cells() == old(self).strategy.cells(),
            (*c.buffer).width == old(self).strategy.width_spec(),
            (*c.buffer).height == old(self).strategy.height_spec(),
            (*c.buffer).format == old(self).strategy.format_spec(),
            final(self).strategy.cells() == (*final(c.buffer)).cells(),
            final(self).strategy.width_spec() == (*final(c.buffer)).width,
            final(self).strategy.height_spec() == (*final(c.buffer)).height,
            final(self).strategy.format_spec() == (*final(c.buffer)).format,
            ((*final(c.buffer)).wf() && (*final(c.buffer)).width == old(self).strategy.width_spec()
                && (*final(c.buffer)).height == old(self).strategy.height_spec()
                && (*final(c.buffer)).format == old(self).strategy.format_spec())
                ==> final(self).strategy.wf(),
    {
        AlphaCanvas::new(self.strategy.current_mut())
    }
}

impl<'a, T: FlushTarget> Canvas<'a, T, DoubleBuffer> {
    /// Bind a double-buffered strategy, sized to the sink, to the sink. A
    /// sink whose reported pixel count cannot be held in memory degrades to
    /// an empty canvas.
    pub fn double_buffered(target: &'a mut T, format: ColorFormat) -> (c: Canvas<'a, T, DoubleBuffer>)
        ensures
            c.strategy.wf(),
            c.strategy.format_spec() == format,
            forall|i: int|
                0 <= i < c.strategy.cells().len() ==> #[trigger] c.strategy.cells()[i]
                    == Color::black_spec(format),
    {
        let size = target.size();
        let (w, h) = clamp_dims(size.width, size.height);
        Self::with_strategy(target, DoubleBuffer::new(w, h, format))
    }
}

impl<'a, T: FlushTarget> Canvas<'a, T, SingleBuffer> {
    /// Bind a single-buffered strategy, sized to the sink, to the sink. A
    /// sink whose reported pixel count cannot be held in memory degrades to
    /// an empty canvas.
    pub fn single_buffered(target: &'a mut T, format: ColorFormat) -> (c: Canvas<'a, T, SingleBuffer>)
        ensures
            c.strategy.wf(),
            c.strategy.format_spec() == format,
            forall|i: int|
                0 <= i < c.strategy.cells().len() ==> #[trigger] c.strategy.cells()[i]
                    == Color::black_spec(format),
    {
        let size = target.size();
        let (w, h) = clamp_dims(size.width, size.height);
        Self::with_strategy(target, SingleBuffer::new(w, h, format))
    }
}

/// Keep dimensions whose pixel count fits in memory; degrade any others to
/// an empty grid.
fn clamp_dims(width: u32, height: u32) -> (r: (u32, u32))
    ensures
        r.0 as int * r.1 as int <= usize::MAX as int,
        width as int * height as int <= usize::MAX as int ==> r == (width, height),
{
    proof {
        assert(width as int * height as int <= 0xffff_ffff_0000_0000) by (nonlinear_arith)
            requires
                width as int <= 0xffff_ffff,
                height as int <= 0xffff_ffff,
        ;
    }
    let n: u64 = width as u64 * height as u64;
    if n <= usize::MAX as u64 {
        (width, height)
    } else {
        (0, 0)
    }
}

} // verus!
