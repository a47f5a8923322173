use framecanvas::BufferStrategy;
use framecanvas::Canvas;
use framecanvas::Color;
use framecanvas::ColorFormat;
use framecanvas::DoubleBuffer;
use framecanvas::FlushTarget;
use framecanvas::Point;
use framecanvas::Rectangle;
use framecanvas::Rgba;
use framecanvas::ColorStream;
use framecanvas::Pixel;
use framecanvas::SingleBuffer;
use framecanvas::Size;

fn c565(r: u8, g: u8, b: u8) -> Color {
    Color::new(ColorFormat::Rgb565, r, g, b)
}

fn rect(x: i32, y: i32, w: u32, h: u32) -> Rectangle {
    Rectangle::new(Point::new(x, y), Size::new(w, h))
}

/// A sink that records every region it is given and can be told to fail.
struct RecordingSink {
    width: u32,
    height: u32,
    fail: bool,
    received: Vec<(Rectangle, Vec<Color>)>,
}

#[derive(Debug, PartialEq)]
struct SinkError;

impl RecordingSink {
    fn new(width: u32, height: u32) -> RecordingSink {
        RecordingSink { width, height, fail: false, received: Vec::new() }
    }
}

impl FlushTarget for RecordingSink {
    type Error = SinkError;

    fn size(&self) -> Size {
        Size::new(self.width, self.height)
    }

    fn fill_region(&mut self, area: &Rectangle, colors: &Vec<Color>) -> Result<(), SinkError> {
        if self.fail {
            return Err(SinkError);
        }
        self.received.push((*area, colors.clone()));
        Ok(())
    }
}

#[test]
fn single_buffer_flush_sends_full_buffer_and_keeps_contents() {
    let mut sink = RecordingSink::new(2, 2);
    let mut canvas = Canvas::single_buffered(&mut sink, ColorFormat::Rgb565);
    let c = c565(5, 6, 7);
    canvas.fill_solid(&rect(0, 0, 1, 1), c);
    assert!(canvas.flush().is_ok());
    assert!(canvas.flush().is_ok());
    drop(canvas);
    assert_eq!(sink.received.len(), 2);
    let (area, colors) = &sink.received[0];
    assert_eq!(*area, rect(0, 0, 2, 2));
    assert_eq!(colors.len(), 4);
    assert_eq!(colors[0], c);
    assert_eq!(colors[1], Color::black(ColorFormat::Rgb565));
    // A single buffer never swaps: the second flush resends the same frame.
    assert_eq!(sink.received[1].1, sink.received[0].1);
}

#[test]
fn double_buffer_flush_success_swaps_buffers() {
    let mut sink = RecordingSink::new(2, 2);
    let mut canvas = Canvas::double_buffered(&mut sink, ColorFormat::Rgb565);
    let c = c565(9, 9, 9);
    canvas.fill_solid(&rect(0, 0, 2, 2), c);
    assert!(canvas.flush().is_ok());
    // The drawn frame went to the sink exactly once...
    drop(canvas);
    assert_eq!(sink.received.len(), 1);
    assert_eq!(sink.received[0].1, vec![c; 4]);
    // ...and a second flush presents the other (still black) buffer.
    let mut canvas = Canvas::double_buffered(&mut sink, ColorFormat::Rgb565);
    canvas.fill_solid(&rect(0, 0, 2, 2), c);
    assert!(canvas.flush().is_ok());
    assert!(canvas.flush().is_ok());
    drop(canvas);
    assert_eq!(sink.received.len(), 3);
    assert_eq!(sink.received[1].1, vec![c; 4]);
    assert_eq!(sink.received[2].1, vec![Color::black(ColorFormat::Rgb565); 4]);
}

#[test]
fn double_buffer_flush_failure_keeps_current_for_retry() {
    let mut sink = RecordingSink::new(2, 2);
    let mut db = DoubleBuffer::new(2, 2, ColorFormat::Rgb565);
    let c = c565(3, 2, 1);
    db.fill_solid(&rect(0, 0, 2, 2), c);
    sink.fail = true;
    assert_eq!(db.flush(&mut sink), Err(SinkError));
    // No swap happened: the retry sends the same contents.
    sink.fail = false;
    assert!(db.flush(&mut sink).is_ok());
    assert_eq!(sink.received.len(), 1);
    assert_eq!(sink.received[0].1, vec![c; 4]);
    // After the successful flush the buffers swapped: current is now black.
    assert!(db.flush(&mut sink).is_ok());
    assert_eq!(sink.received[1].1, vec![Color::black(ColorFormat::Rgb565); 4]);
}

#[test]
fn with_strategy_binds_explicit_strategy() {
    let mut sink = RecordingSink::new(3, 1);
    let strategy = SingleBuffer::new(3, 1, ColorFormat::Rgb888);
    let mut canvas = Canvas::with_strategy(&mut sink, strategy);
    assert_eq!(canvas.size(), Size::new(3, 1));
    let c = Color::new(ColorFormat::Rgb888, 1, 2, 3);
    canvas.clear(c);
    assert!(canvas.flush().is_ok());
    drop(canvas);
    assert_eq!(sink.received[0].1, vec![c; 3]);
}

#[test]
fn canvas_write_operations_reach_current_buffer() {
    let mut sink = RecordingSink::new(2, 2);
    let mut canvas = Canvas::single_buffered(&mut sink, ColorFormat::Rgb565);
    canvas.draw_iter(&vec![Pixel(Point::new(0, 0), c565(1, 1, 1))]);
    let mut stream = ColorStream::new(vec![c565(2, 2, 2)]);
    canvas.fill_contiguous(&rect(1, 1, 1, 1), &mut stream);
    assert_eq!(stream.consumed(), 1);
    assert!(canvas.flush().is_ok());
    drop(canvas);
    let colors = &sink.received[0].1;
    assert_eq!(colors[0], c565(1, 1, 1));
    assert_eq!(colors[3], c565(2, 2, 2));
}

#[test]
fn strategy_sizes_follow_sink() {
    let mut sink = RecordingSink::new(7, 5);
    let canvas = Canvas::double_buffered(&mut sink, ColorFormat::Rgb565);
    assert_eq!(canvas.strategy.size(), Size::new(7, 5));
}

#[test]
fn canvas_alpha_surface_writes_into_current_buffer() {
    let mut sink = RecordingSink::new(2, 2);
    let mut canvas = Canvas::single_buffered(&mut sink, ColorFormat::Rgb888);
    {
        let mut ac = canvas.alpha();
        let red = Color::new(ColorFormat::Rgb888, 255, 0, 0);
        ac.fill_solid(&rect(0, 0, 2, 2), Rgba::new(red, 128));
    }
    assert!(canvas.flush().is_ok());
    drop(canvas);
    let expected = Color::new(ColorFormat::Rgb888, 128, 0, 0);
    assert_eq!(sink.received[0].1, vec![expected; 4]);
}
