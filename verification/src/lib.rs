//! A pixel-framebuffer management layer for constrained display targets.
//!
//! The crate owns a fixed-capacity grid of color cells, exposes drawing
//! primitives with mandatory bounds clipping, supports single- and
//! double-buffered presentation to an external display sink, and provides an
//! alpha-compositing drawing surface that blends incoming color+alpha values
//! against existing buffer contents using exact integer arithmetic per color
//! bit-depth.

mod alpha;
mod canvas;
mod framebuffer;
mod geometry;
mod rgba;
mod stream;

pub use alpha::AlphaCanvas;
pub use alpha::AlphaPixel;
pub use alpha::blend_pixel_spec;
pub use alpha::blend_pixels_spec;
pub use canvas::BufferStrategy;
pub use canvas::Canvas;
pub use canvas::DoubleBuffer;
pub use canvas::FlushTarget;
pub use canvas::HasFramebuffer;
pub use canvas::SingleBuffer;
pub use framebuffer::Framebuffer;
pub use framebuffer::Pixel;
pub use framebuffer::cell_at;
pub use framebuffer::draw_pixels_spec;
pub use framebuffer::lemma_cell_at_update;
pub use framebuffer::lemma_index_bounds;
pub use framebuffer::lemma_index_injective;
pub use framebuffer::set_pixel_spec;
pub use framebuffer::stream_index;
pub use geometry::Point;
pub use geometry::Rectangle;
pub use geometry::Size;
pub use rgba::Blend;
pub use rgba::Color;
pub use rgba::ColorFormat;
pub use rgba::Rgba;
pub use rgba::blend_addend;
pub use rgba::blend_channel_spec;
pub use rgba::blend_color_spec;
pub use rgba::lemma_blend_channel_in_range;
pub use rgba::lemma_blend_color_wf;
pub use rgba::lemma_blend_opaque_is_foreground;
pub use rgba::lemma_blend_transparent_is_background;
pub use stream::ColorStream;
