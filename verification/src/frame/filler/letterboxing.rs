//! Letterboxing: a smaller frame is centred on the panel.

use vstd::prelude::*;
use vstd::arithmetic::div_mod::lemma_fundamental_div_mod_converse;
use crate::display::{Dimensions, Display, DisplayError, Pixel};
use crate::frame::filler::FrameFiller;
use crate::frame::{Frame, FrameView};

verus! {

/// The padding that stands before an extent of `inner` centred in `outer`:
/// half of the room that is left, rounded down, so that an odd pixel goes
/// behind.
pub open spec fn padding_before(outer: u32, inner: u32) -> int {
    (outer - inner) / 2
}

/// Whether panel position (`x`, `y`) lies in the region that the centred frame
/// covers.
pub open spec fn covered(frame: FrameView, panel: Dimensions, x: int, y: int) -> bool {
    let left = padding_before(panel.width, frame.width);
    let top = padding_before(panel.height, frame.height);
    left <= x < left + frame.width && top <= y < top + frame.height
}

/// The pixel that panel position (`x`, `y`) gets: the frame's pixel where the
/// centred frame covers it, the background elsewhere.
pub open spec fn letterboxed_at(
    frame: FrameView,
    panel: Dimensions,
    background: Pixel,
    x: int,
    y: int,
) -> Pixel {
    if covered(frame, panel, x, y) {
        frame.at(
            x - padding_before(panel.width, frame.width),
            y - padding_before(panel.height, frame.height),
        )
    } else {
        background
    }
}

/// The full-panel buffer, in row-major order, that shows `frame` centred on
/// `background`.
pub open spec fn letterboxed(frame: FrameView, panel: Dimensions, background: Pixel) -> Seq<
    Pixel,
> {
    Seq::new(
        panel.area(),
        |i: int|
            letterboxed_at(
                frame,
                panel,
                background,
                i % (panel.width as int),
                i / (panel.width as int),
            ),
    )
}

/// Centres frames on a background of one colour.
pub struct LetterboxingDisplayFiller {
    background_color: Pixel,
}

impl LetterboxingDisplayFiller {
    /// A filler that pads with `background_color`.
    pub fn new(background_color: Pixel) -> (filler: Self)
        ensures
            filler.background() == background_color,
    {
        Self { background_color }
    }

    /// The colour of the padding.
    pub closed spec fn background(&self) -> Pixel {
        self.background_color
    }

    /// The colour of the padding.
    pub fn background_color(&self) -> (color: Pixel)
        ensures
            color == self.background(),
    {
        self.background_color
    }

    /// The full-panel buffer that shows `frame` centred on a panel of size
    /// `panel`, or `FrameTooLarge` if the frame does not fit.
    pub fn letterbox(&self, frame: &Frame, panel: Dimensions) -> (r: Result<
        Vec<Pixel>,
        DisplayError,
    >)
        ensures
            r is Ok <==> panel.holds(frame@.dimensions()),
            r matches Ok(pixels) ==> pixels@ == letterboxed(frame@, panel, self.background()),
            r matches Err(e) ==> e is FrameTooLarge,
    {
        let size = frame.dimensions();
        if size.width > panel.width || size.height > panel.height {
            return Err(DisplayError::FrameTooLarge);
        }
        let source = frame.pixel_data();
        let available = source.len();
        let left = (panel.width - size.width) / 2;
        let top = (panel.height - size.height) / 2;
        let ghost target = letterboxed(frame@, panel, self.background());
        let mut pixels: Vec<Pixel> = Vec::new();
        let mut y: u32 = 0;
        while y < panel.height
            invariant
                y <= panel.height,
                panel.holds(size),
                size == frame@.dimensions(),
                frame@.wf(),
                source@ == frame@.pixels,
                available == source@.len(),
                left == padding_before(panel.width, size.width),
                top == padding_before(panel.height, size.height),
                target == letterboxed(frame@, panel, self.background()),
                pixels@.len() == y * panel.width,
                pixels@.len() <= target.len(),
                pixels@ == target.take(pixels@.len() as int),
            decreases panel.height - y,
        {
            let mut x: u32 = 0;
            while x < panel.width
                invariant
                    x <= panel.width,
                    y < panel.height,
                    panel.holds(size),
                    size == frame@.dimensions(),
                    frame@.wf(),
                    source@ == frame@.pixels,
                    available == source@.len(),
                    left == padding_before(panel.width, size.width),
                    top == padding_before(panel.height, size.height),
                    target == letterboxed(frame@, panel, self.background()),
                    pixels@.len() == y * panel.width + x,
                    pixels@.len() <= target.len(),
                    pixels@ == target.take(pixels@.len() as int),
                decreases panel.width - x,
            {
                let ghost i = y * panel.width + x;
                proof {
                    lemma_fundamental_div_mod_converse(
                        i,
                        panel.width as int,
                        y as int,
                        x as int,
                    );
                    lemma_position_in_raster(panel, x as int, y as int);
                }
                let pixel = if left <= x && x - left < size.width && top <= y && y - top
                    < size.height {
                    let column = x - left;
                    let row = y - top;
                    proof {
                        lemma_position_in_raster(size, column as int, row as int);
                    }
                    let index = (row as u64) * (size.width as u64) + (column as u64);
                    assert(index < available);
                    source[index as usize]
                } else {
                    self.background_color
                };
                assert(pixel == target[i]);
                pixels.push(pixel);
                assert(pixels@ == target.take(i + 1)) by {
                    assert(target.take(i + 1) == target.take(i).push(target[i]));
                }
                x = x + 1;
            }
            assert(y * panel.width + panel.width == (y + 1) * panel.width) by (nonlinear_arith);
            y = y + 1;
        }
        assert(panel.height * panel.width == panel.width * panel.height) by (nonlinear_arith);
        assert(pixels@ == target) by {
            assert(target.take(target.len() as int) == target);
        }
        Ok(pixels)
    }
}

/// A position inside a raster has a row-major index inside the raster.
proof fn lemma_position_in_raster(size: Dimensions, x: int, y: int)
    requires
        0 <= x < size.width,
        0 <= y < size.height,
    ensures
        0 <= y * size.width + x < size.area(),
        size.area() <= 0xffff_ffff * 0xffff_ffff,
{
    let w = size.width as int;
    let h = size.height as int;
    assert(y * w + x < h * w && 0 <= y * w) by (nonlinear_arith)
        requires
            0 <= x < w,
            0 <= y < h,
    ;
    assert(h * w <= 0xffff_ffff * 0xffff_ffff) by (nonlinear_arith)
        requires
            0 <= w <= 0xffff_ffff,
            0 <= h <= 0xffff_ffff,
    ;
    assert(size.width * size.height == h * w) by (nonlinear_arith)
        requires
            w == size.width,
            h == size.height,
    ;
}

impl FrameFiller for LetterboxingDisplayFiller {
    /// A frame that fits the panel is letterboxed; a larger one is refused
    /// with `FrameTooLarge`.
    open spec fn fitted(&self, frame: FrameView, panel: Dimensions) -> Result<
        Seq<Pixel>,
        DisplayError,
    > {
        if panel.holds(frame.dimensions()) {
            Ok(letterboxed(frame, panel, self.background()))
        } else {
            Err(DisplayError::FrameTooLarge)
        }
    }

    /// Hands `frame`, centred on the background, to `display`.
    ///
    /// A frame that does not fit is refused with `FrameTooLarge`, and the
    /// display is left alone. A frame that fits reaches the display as the
    /// letterboxed buffer, which the display does not refuse for its length.
    fn push_to_display<D: Display>(&self, frame: Frame, display: &mut D) -> (r: Result<
        (),
        DisplayError,
    >)
        ensures
            old(display).panel().holds(frame@.dimensions()) ==> !(r matches Err(
                DisplayError::DimensionMismatch,
            )),
    {
        let panel = display.dimensions();
        match self.letterbox(&frame, panel) {
            Err(e) => Err(e),
            Ok(pixels) => display.update_pixels(pixels),
        }
    }
}

/// The row-major index of position (`x`, `y`) in a raster `width` wide.
pub open spec fn raster_index(width: u32, x: int, y: int) -> int {
    y * width + x
}

/// The layout of a letterboxed buffer: it holds one pixel for each position
/// of the panel; the region that the centred frame covers holds the frame,
/// pixel for pixel; every other position holds the background.
pub proof fn lemma_letterboxed_layout(frame: FrameView, panel: Dimensions, background: Pixel)
    requires
        frame.wf(),
        panel.holds(frame.dimensions()),
    ensures
        letterboxed(frame, panel, background).len() == panel.width * panel.height,
        forall|x: int, y: int|
            0 <= x < frame.width && 0 <= y < frame.height ==> letterboxed(
                frame,
                panel,
                background,
            )[raster_index(
                panel.width,
                padding_before(panel.width, frame.width) + x,
                padding_before(panel.height, frame.height) + y,
            )] == frame.pixels[#[trigger] raster_index(frame.width, x, y)],
        forall|x: int, y: int|
            0 <= x < panel.width && 0 <= y < panel.height && !covered(frame, panel, x, y)
                ==> letterboxed(frame, panel, background)[#[trigger] raster_index(
                panel.width,
                x,
                y,
            )] == background,
{
    let buffer = letterboxed(frame, panel, background);
    let left = padding_before(panel.width, frame.width);
    let top = padding_before(panel.height, frame.height);
    assert forall|x: int, y: int| 0 <= x < panel.width && 0 <= y < panel.height implies buffer[
    #[trigger] raster_index(panel.width, x, y)] == letterboxed_at(
        frame,
        panel,
        background,
        x,
        y,
    ) by {
        lemma_position_in_raster(panel, x, y);
        lemma_fundamental_div_mod_converse(y * panel.width + x, panel.width as int, y, x);
    }
    assert forall|x: int, y: int|
        0 <= x < frame.width && 0 <= y < frame.height implies buffer[raster_index(
        panel.width,
        left + x,
        top + y,
    )] == frame.pixels[#[trigger] raster_index(frame.width, x, y)] by {
        assert(covered(frame, panel, left + x, top + y));
        assert(buffer[raster_index(panel.width, left + x, top + y)] == letterboxed_at(
            frame,
            panel,
            background,
            left + x,
            top + y,
        ));
    }
}

} // verus!
