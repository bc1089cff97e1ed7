use rasgb::display::fake::FakeDisplay;
use rasgb::display::{Dimensions, Display, DisplayError, Pixel};
use rasgb::frame::filler::letterboxing::LetterboxingDisplayFiller;
use rasgb::frame::filler::FrameFiller;
use rasgb::frame::{Frame, FrameError};

const BLACK: Pixel = Pixel { r: 0, g: 0, b: 0 };
const RED: Pixel = Pixel { r: 255, g: 0, b: 0 };
const GREEN: Pixel = Pixel { r: 0, g: 255, b: 0 };
const BLUE: Pixel = Pixel { r: 0, g: 0, b: 255 };
const GREY: Pixel = Pixel { r: 9, g: 9, b: 9 };

#[test]
fn a_frame_holds_one_pixel_per_position() {
    let frame = Frame::new(2, 1, vec![RED, GREEN]).unwrap();
    assert_eq!(frame.dimensions(), Dimensions { width: 2, height: 1 });
    assert_eq!(frame.pixel_data(), &vec![RED, GREEN]);
}

#[test]
fn a_frame_with_too_few_or_too_many_pixels_is_refused() {
    assert!(matches!(
        Frame::new(2, 2, vec![RED, GREEN, BLUE]),
        Err(FrameError::DimensionMismatch)
    ));
    assert!(matches!(
        Frame::new(1, 1, vec![RED, GREEN]),
        Err(FrameError::DimensionMismatch)
    ));
    assert!(matches!(
        Frame::new(0, 7, vec![RED]),
        Err(FrameError::DimensionMismatch)
    ));
    assert!(Frame::new(0, 7, vec![]).is_ok());
}

#[test]
fn a_frame_whose_area_exceeds_32_bits_is_measured_without_wrapping() {
    assert!(matches!(
        Frame::new(65_536, 65_536, vec![]),
        Err(FrameError::DimensionMismatch)
    ));
    assert!(matches!(
        Frame::new(u32::MAX, u32::MAX, vec![RED]),
        Err(FrameError::DimensionMismatch)
    ));
}

#[test]
fn the_empty_frame_has_no_extent() {
    let frame = Frame::empty();
    assert_eq!(frame.dimensions(), Dimensions { width: 0, height: 0 });
    assert!(frame.pixel_data().is_empty());
}

#[test]
fn a_frame_of_one_colour_is_filled_with_it() {
    let frame = Frame::with_color(3, 2, GREY);
    assert_eq!(frame, Frame::new(3, 2, vec![GREY; 6]).unwrap());
}

#[test]
fn a_copy_of_a_frame_equals_it() {
    let frame = Frame::new(2, 2, vec![RED, GREEN, BLUE, GREY]).unwrap();
    assert_eq!(frame.clone(), frame);
}

#[test]
fn errors_describe_themselves() {
    assert_eq!(
        FrameError::DimensionMismatch.message(),
        "the amount of provided pixels does not correspond to the dimensions of the frame"
    );
    assert_eq!(FrameError::Other("lost".to_string()).message(), "lost");
    assert_eq!(
        DisplayError::DimensionMismatch.message(),
        "the amount of provided pixels does not correspond to the dimensions of the display"
    );
    assert_eq!(
        DisplayError::FrameTooLarge.message(),
        "the provided frame exceeds the dimensions of the display"
    );
    assert_eq!(DisplayError::Other("no signal".to_string()).message(), "no signal");
}

#[test]
fn the_pixel_count_is_width_times_height() {
    assert_eq!(Dimensions { width: 192, height: 128 }.pixel_count(), 24_576);
    assert_eq!(
        Dimensions { width: u32::MAX, height: u32::MAX }.pixel_count(),
        18_446_744_065_119_617_025
    );
}

#[test]
fn letterboxing_centres_a_smaller_frame() {
    let filler = LetterboxingDisplayFiller::new(BLACK);
    let frame = Frame::new(2, 1, vec![RED, GREEN]).unwrap();
    let buffer = filler
        .letterbox(&frame, Dimensions { width: 4, height: 3 })
        .unwrap();
    assert_eq!(
        buffer,
        vec![
            BLACK, BLACK, BLACK, BLACK, //
            BLACK, RED, GREEN, BLACK, //
            BLACK, BLACK, BLACK, BLACK,
        ]
    );
}

#[test]
fn letterboxing_puts_the_odd_pixel_behind_and_below() {
    let filler = LetterboxingDisplayFiller::new(GREY);
    let frame = Frame::new(2, 2, vec![RED, GREEN, BLUE, BLACK]).unwrap();
    let buffer = filler
        .letterbox(&frame, Dimensions { width: 5, height: 3 })
        .unwrap();
    assert_eq!(
        buffer,
        vec![
            GREY, RED, GREEN, GREY, GREY, //
            GREY, BLUE, BLACK, GREY, GREY, //
            GREY, GREY, GREY, GREY, GREY,
        ]
    );
}

#[test]
fn letterboxing_a_frame_of_the_panels_size_changes_nothing() {
    let filler = LetterboxingDisplayFiller::new(GREY);
    let pixels = vec![RED, GREEN, BLUE, BLACK, GREY, RED];
    let frame = Frame::new(3, 2, pixels.clone()).unwrap();
    assert_eq!(
        filler.letterbox(&frame, Dimensions { width: 3, height: 2 }).unwrap(),
        pixels
    );
}

#[test]
fn letterboxing_the_empty_frame_gives_the_background() {
    let filler = LetterboxingDisplayFiller::new(BLUE);
    assert_eq!(filler.background_color(), BLUE);
    assert_eq!(
        filler
            .letterbox(&Frame::empty(), Dimensions { width: 2, height: 2 })
            .unwrap(),
        vec![BLUE; 4]
    );
    assert_eq!(
        filler
            .letterbox(&Frame::empty(), Dimensions { width: 0, height: 5 })
            .unwrap(),
        vec![]
    );
}

#[test]
fn a_frame_that_is_wider_or_taller_than_the_panel_is_refused() {
    let filler = LetterboxingDisplayFiller::new(BLACK);
    let wide = Frame::with_color(3, 1, RED);
    let tall = Frame::with_color(1, 3, RED);
    let panel = Dimensions { width: 2, height: 2 };
    assert!(matches!(
        filler.letterbox(&wide, panel),
        Err(DisplayError::FrameTooLarge)
    ));
    assert!(matches!(
        filler.letterbox(&tall, panel),
        Err(DisplayError::FrameTooLarge)
    ));
}

#[test]
fn a_pushed_frame_is_shown_letterboxed() {
    let filler = LetterboxingDisplayFiller::new(BLACK);
    let mut display = FakeDisplay::new(2, 2);
    assert_eq!(display.dimensions(), Dimensions { width: 2, height: 2 });
    assert!(display.pixels().is_empty());

    let frame = Frame::new(2, 1, vec![RED, GREEN]).unwrap();
    filler.push_to_display(frame, &mut display).unwrap();
    assert_eq!(display.pixels(), &vec![RED, GREEN, BLACK, BLACK]);
}

#[test]
fn a_frame_that_is_too_large_leaves_the_display_as_it_was() {
    let filler = LetterboxingDisplayFiller::new(BLACK);
    let mut display = FakeDisplay::new(1, 1);
    filler
        .push_to_display(Frame::with_color(1, 1, RED), &mut display)
        .unwrap();

    let r = filler.push_to_display(Frame::with_color(2, 1, GREEN), &mut display);
    assert!(matches!(r, Err(DisplayError::FrameTooLarge)));
    assert_eq!(display.pixels(), &vec![RED]);
}

#[test]
fn a_display_refuses_a_buffer_of_the_wrong_length() {
    let mut display = FakeDisplay::new(2, 2);
    display.update_pixels(vec![RED; 4]).unwrap();

    assert!(matches!(
        display.update_pixels(vec![GREEN; 3]),
        Err(DisplayError::DimensionMismatch)
    ));
    assert!(matches!(
        display.update_pixels(vec![GREEN; 5]),
        Err(DisplayError::DimensionMismatch)
    ));
    assert_eq!(display.pixels(), &vec![RED; 4]);
    assert_eq!(display.dimensions(), Dimensions { width: 2, height: 2 });
}

struct Counting {
    pushes: usize,
}

impl Display for Counting {
    fn dimensions(&self) -> Dimensions {
        Dimensions { width: 3, height: 1 }
    }

    fn update_pixels(&mut self, pixels: Vec<Pixel>) -> Result<(), DisplayError> {
        if pixels.len() != 3 {
            return Err(DisplayError::DimensionMismatch);
        }
        if pixels[1] == GREEN {
            return Err(DisplayError::Other("green is out".to_string()));
        }
        self.pushes += 1;
        Ok(())
    }
}

#[test]
fn a_display_of_ones_own_is_served_and_its_answer_passed_on() {
    let filler = LetterboxingDisplayFiller::new(BLACK);
    let mut display = Counting { pushes: 0 };

    filler
        .push_to_display(Frame::with_color(1, 1, RED), &mut display)
        .unwrap();
    assert_eq!(display.pushes, 1);

    let r = filler.push_to_display(Frame::with_color(1, 1, GREEN), &mut display);
    assert!(matches!(r, Err(DisplayError::Other(text)) if text == "green is out"));
    assert_eq!(display.pushes, 1);
}

#[test]
fn a_boxed_display_shows_as_the_display_in_the_box() {
    let filler = LetterboxingDisplayFiller::new(BLACK);
    let mut boxed = Box::new(FakeDisplay::new(1, 2));
    assert_eq!(Display::dimensions(&boxed), Dimensions { width: 1, height: 2 });

    filler
        .push_to_display(Frame::with_color(1, 1, RED), &mut boxed)
        .unwrap();
    assert_eq!(boxed.pixels(), &vec![RED, BLACK]);
    assert!(matches!(
        Display::update_pixels(&mut boxed, vec![RED]),
        Err(DisplayError::DimensionMismatch)
    ));
}
