use rasgb::blocking_option::BlockingOption;
use rasgb::config::{default_port, report_load_failure, ConfigLoadError, DisplayConfigDriver};
use rasgb::display::fake::FakeDisplay;
use rasgb::display::{Dimensions, Display, DisplayError, Pixel};
use rasgb::frame::filler::letterboxing::LetterboxingDisplayFiller;
use rasgb::frame::gen::channel_time_queued::ChannelTimeQueuedFrameGenerator;
use rasgb::frame::gen::solid_color::SolidColorFrameGenerator;
use rasgb::frame::gen::FrameGenerator;
use rasgb::frame::Frame;
use rasgb::run::{sync_frames, TickOutcome};
use rasgb::startup::{
    default_filler, fallback_idle_micros, generator_stack, idle_color, queue_idle_micros,
    DEFAULT_IDLE_MICROS,
};

const BLACK: Pixel = Pixel { r: 0, g: 0, b: 0 };
const RED: Pixel = Pixel { r: 255, g: 0, b: 0 };

struct Tally {
    pushes: usize,
}

impl Display for Tally {
    fn dimensions(&self) -> Dimensions {
        Dimensions { width: 2, height: 2 }
    }

    fn update_pixels(&mut self, pixels: Vec<Pixel>) -> Result<(), DisplayError> {
        if pixels.len() != 4 {
            return Err(DisplayError::DimensionMismatch);
        }
        self.pushes += 1;
        Ok(())
    }
}

struct Broken;

impl Display for Broken {
    fn dimensions(&self) -> Dimensions {
        Dimensions { width: 1, height: 1 }
    }

    fn update_pixels(&mut self, pixels: Vec<Pixel>) -> Result<(), DisplayError> {
        if pixels.len() != 1 {
            return Err(DisplayError::DimensionMismatch);
        }
        Err(DisplayError::Other("unplugged".to_string()))
    }
}

#[test]
fn ten_ticks_of_a_generator_that_always_answers_push_ten_buffers() {
    let mut display = Tally { pushes: 0 };
    let filler = LetterboxingDisplayFiller::new(BLACK);
    let mut frames = SolidColorFrameGenerator::new(RED, 2, 2);

    let mut tick: u128 = 0;
    while tick < 10 {
        let outcome = sync_frames(&mut display, &filler, &mut frames, tick * 100_000);
        assert!(matches!(outcome, TickOutcome::Shown));
        tick += 1;
    }
    assert_eq!(display.pushes, 10);
}

#[test]
fn a_tick_without_a_due_frame_leaves_the_display_alone() {
    let mut display = FakeDisplay::new(1, 1);
    let filler = LetterboxingDisplayFiller::new(BLACK);
    let mut frames = ChannelTimeQueuedFrameGenerator::new(2500, 1_000_000);
    frames.add_frame(0, 200, Frame::with_color(1, 1, RED));

    assert!(matches!(
        sync_frames(&mut display, &filler, &mut frames, 100),
        TickOutcome::Idle
    ));
    assert!(display.pixels().is_empty());
    assert!(matches!(
        sync_frames(&mut display, &filler, &mut frames, 200),
        TickOutcome::Shown
    ));
    assert_eq!(display.pixels(), &vec![RED]);
    assert!(matches!(
        sync_frames(&mut display, &filler, &mut frames, 300),
        TickOutcome::Idle
    ));
    assert_eq!(display.pixels(), &vec![RED]);
}

#[test]
fn a_frame_that_does_not_fit_fails_the_tick_and_is_gone() {
    let mut display = FakeDisplay::new(1, 1);
    let filler = LetterboxingDisplayFiller::new(BLACK);
    let mut frames = ChannelTimeQueuedFrameGenerator::new(2500, 1_000_000);
    frames.add_frame(0, 100, Frame::with_color(2, 2, RED));

    assert!(matches!(
        sync_frames(&mut display, &filler, &mut frames, 100),
        TickOutcome::Failed(DisplayError::FrameTooLarge)
    ));
    assert!(display.pixels().is_empty());
    assert_eq!(frames.len(), 0);
    assert!(matches!(
        sync_frames(&mut display, &filler, &mut frames, 100),
        TickOutcome::Idle
    ));
}

#[test]
fn a_failing_display_fails_the_tick_with_its_own_error() {
    let mut display = Broken;
    let filler = LetterboxingDisplayFiller::new(BLACK);
    let mut frames = SolidColorFrameGenerator::new(RED, 1, 1);

    let outcome = sync_frames(&mut display, &filler, &mut frames, 0);
    assert!(matches!(outcome, TickOutcome::Failed(DisplayError::Other(text)) if text == "unplugged"));
    let outcome = sync_frames(&mut display, &filler, &mut frames, 1);
    assert!(matches!(outcome, TickOutcome::Failed(DisplayError::Other(_))));
}

#[test]
fn the_idle_window_defaults_to_one_second() {
    assert_eq!(DEFAULT_IDLE_MICROS, 1_000_000);
    assert_eq!(queue_idle_micros(None), 1_000_000);
    assert_eq!(queue_idle_micros(Some(250)), 250);
    assert_eq!(queue_idle_micros(Some(0)), 0);
}

#[test]
fn the_fallback_is_idle_for_one_tick_at_least() {
    assert_eq!(fallback_idle_micros(None, 100_000), 1_000_000);
    assert_eq!(fallback_idle_micros(None, 2_000_000), 2_000_000);
    assert_eq!(fallback_idle_micros(Some(50_000), 100_000), 100_000);
    assert_eq!(fallback_idle_micros(Some(100_000), 100_000), 100_000);
    assert_eq!(fallback_idle_micros(Some(100_001), 100_000), 100_001);
    assert_eq!(fallback_idle_micros(Some(0), 0), 0);
}

#[test]
fn the_stack_falls_back_to_black_on_the_whole_panel() {
    assert_eq!(idle_color(), BLACK);
    assert_eq!(default_filler().background_color(), BLACK);

    let mut queue = ChannelTimeQueuedFrameGenerator::new(2500, 20_000);
    queue.add_frame(0, 1_000, Frame::with_color(1, 1, RED));
    let panel = Dimensions { width: 3, height: 2 };
    let mut stack = generator_stack(queue, panel, Some(20_000), 100_000);

    assert_eq!(stack.generate(0), Some(Frame::with_color(3, 2, BLACK)));
    assert_eq!(stack.generate(1_000), Some(Frame::with_color(1, 1, RED)));
    assert_eq!(stack.generate(100_999), None);
    assert_eq!(stack.generate(101_000), Some(Frame::with_color(3, 2, BLACK)));
}

#[test]
fn the_server_listens_on_8081_by_default() {
    assert_eq!(default_port(), 8081);
}

#[test]
fn a_missing_file_at_the_default_path_blames_the_environment() {
    let missing = ConfigLoadError::FileNotFound { path: "/home/u/.datadance/config.toml".to_string() };
    let r = report_load_failure(missing, false, "/home/u/.datadance/config.toml".to_string());
    assert!(matches!(
        r,
        ConfigLoadError::EnvironmentVariableNotSet { default_path }
            if default_path == "/home/u/.datadance/config.toml"
    ));
}

#[test]
fn every_other_load_failure_is_reported_as_it_is() {
    let missing = ConfigLoadError::FileNotFound { path: "/etc/panel.toml".to_string() };
    let r = report_load_failure(missing, true, "/home/u/.datadance/config.toml".to_string());
    assert!(matches!(r, ConfigLoadError::FileNotFound { path } if path == "/etc/panel.toml"));

    let malformed = ConfigLoadError::MalformedConfig { error: "line 3".to_string() };
    let r = report_load_failure(malformed, false, "d".to_string());
    assert!(matches!(r, ConfigLoadError::MalformedConfig { error } if error == "line 3"));

    let unreadable = ConfigLoadError::IoError { error: "denied".to_string() };
    let r = report_load_failure(unreadable, false, "d".to_string());
    assert!(matches!(r, ConfigLoadError::IoError { error } if error == "denied"));

    let invalid = ConfigLoadError::InvalidConfig { details: "fps".to_string() };
    let r = report_load_failure(invalid, true, "d".to_string());
    assert!(matches!(r, ConfigLoadError::InvalidConfig { details } if details == "fps"));
}

#[test]
fn a_driver_configuration_names_its_options() {
    let fake = DisplayConfigDriver::Fake { width: 64, height: 32 };
    assert!(matches!(fake, DisplayConfigDriver::Fake { width: 64, height: 32 }));
    let window = DisplayConfigDriver::WinitPixels { width: 1, height: 2 };
    assert!(matches!(window, DisplayConfigDriver::WinitPixels { width: 1, height: 2 }));
    assert!(matches!(DisplayConfigDriver::Ratatui, DisplayConfigDriver::Ratatui));
}

#[test]
fn the_slot_hands_over_the_newest_value_once() {
    let mut slot: BlockingOption<u32> = BlockingOption::new();
    assert!(!slot.is_ready());
    assert_eq!(slot.take(), None);

    slot.send(1);
    slot.send(2);
    assert!(slot.is_ready());
    assert_eq!(slot.take(), Some(2));
    assert_eq!(slot.take(), None);

    let mut slot = BlockingOption::new_with(vec![RED]);
    assert_eq!(slot.take(), Some(vec![RED]));
    assert!(!slot.is_ready());
}
