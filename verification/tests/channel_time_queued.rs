use rasgb::display::Pixel;
use rasgb::frame::gen::channel_time_queued::ChannelTimeQueuedFrameGenerator;
use rasgb::frame::gen::FrameGenerator;
use rasgb::frame::Frame;

const SECOND: u128 = 1_000_000;

fn shade(level: u8) -> Frame {
    Frame::new(1, 1, vec![Pixel { r: level, g: level, b: level }]).unwrap()
}

#[test]
fn test_obsolete_with_higher_channel_always_false() {
    let mut queue = ChannelTimeQueuedFrameGenerator::new(2500, SECOND);
    queue.add_frame(0, 100, Frame::empty());

    assert!(!queue.is_frame_superseded(1, 100));
    assert!(!queue.is_frame_superseded(1, 150));
    assert!(!queue.is_frame_superseded(1, 50));
}

#[test]
fn test_obsolete_with_lower_channel_true_when_later() {
    let mut queue = ChannelTimeQueuedFrameGenerator::new(2500, SECOND);
    queue.add_frame(1, 100, Frame::empty());

    assert!(queue.is_frame_superseded(0, 100));
    assert!(queue.is_frame_superseded(0, 200));
}

#[test]
fn test_obsolete_with_lower_channel_false_when_outside_range() {
    let mut queue = ChannelTimeQueuedFrameGenerator::new(2500, SECOND);
    queue.add_frame(1, 100, Frame::empty());

    assert!(!queue.is_frame_superseded(0, 50));
    assert!(!queue.is_frame_superseded(0, 1_000_000 + 1_000));
}

#[test]
fn test_obsolete_with_same_channel_false_when_inside_range() {
    let mut queue = ChannelTimeQueuedFrameGenerator::new(2500, SECOND);
    queue.add_frame(1, 100, Frame::empty());

    assert!(!queue.is_frame_superseded(1, 50));
    assert!(!queue.is_frame_superseded(1, 150));
}

#[test]
fn frames_are_served_in_time_order_and_only_once() {
    let mut queue = ChannelTimeQueuedFrameGenerator::new(2500, SECOND);
    queue.add_frame(0, 100, shade(1));
    queue.add_frame(0, 200, shade(2));

    assert_eq!(queue.generate(150), Some(shade(1)));
    assert_eq!(queue.last_served(), Some((0, 100)));
    assert_eq!(queue.generate(250), Some(shade(2)));
    assert_eq!(queue.last_served(), Some((0, 200)));
    assert_eq!(queue.generate(300), None);
    assert_eq!(queue.last_served(), Some((0, 200)));
    assert_eq!(queue.len(), 0);
}

#[test]
fn a_query_answers_the_latest_due_frame_and_consumes_the_earlier_ones() {
    let mut queue = ChannelTimeQueuedFrameGenerator::new(2500, SECOND);
    queue.add_frame(0, 300, shade(3));
    queue.add_frame(0, 100, shade(1));
    queue.add_frame(0, 200, shade(2));

    assert_eq!(queue.generate(250), Some(shade(2)));
    assert_eq!(queue.len(), 1);
    assert_eq!(queue.generate(299), None);
    assert_eq!(queue.generate(300), Some(shade(3)));
}

#[test]
fn a_higher_channel_shadows_a_later_frame_of_a_lower_channel() {
    let mut queue = ChannelTimeQueuedFrameGenerator::new(2500, SECOND);
    queue.add_frame(1, 100, shade(1));
    queue.add_frame(0, 150, shade(0));

    assert_eq!(queue.generate(200), Some(shade(1)));
    assert_eq!(queue.last_served(), Some((1, 100)));
    assert_eq!(queue.len(), 0);
}

#[test]
fn the_frame_served_last_shadows_lower_channels_within_its_window() {
    let mut queue = ChannelTimeQueuedFrameGenerator::new(2500, SECOND);
    queue.add_frame(1, 100, shade(1));
    assert_eq!(queue.generate(100), Some(shade(1)));

    queue.add_frame(0, 500, shade(5));
    assert_eq!(queue.generate(600), None);
    assert_eq!(queue.last_served(), Some((1, 100)));
    assert_eq!(queue.len(), 0);

    queue.add_frame(0, 100 + SECOND, shade(7));
    assert_eq!(queue.generate(100 + SECOND), Some(shade(7)));
    assert_eq!(queue.last_served(), Some((0, 100 + SECOND)));
}

#[test]
fn shadowing_ends_where_the_window_ends() {
    let mut queue = ChannelTimeQueuedFrameGenerator::new(2500, 50);
    queue.add_frame(1, 100, shade(1));
    queue.add_frame(0, 149, shade(2));
    queue.add_frame(0, 150, shade(3));

    assert_eq!(queue.generate(149), Some(shade(1)));
    assert_eq!(queue.generate(150), Some(shade(3)));
}

#[test]
fn a_lower_channel_does_not_shadow_a_higher_one() {
    let mut queue = ChannelTimeQueuedFrameGenerator::new(2500, SECOND);
    queue.add_frame(-128, 100, shade(1));
    queue.add_frame(127, 150, shade(2));

    assert_eq!(queue.generate(200), Some(shade(2)));
    assert_eq!(queue.last_served(), Some((127, 150)));
}

#[test]
fn negative_channels_are_ordered_like_any_other() {
    let mut queue = ChannelTimeQueuedFrameGenerator::new(2500, SECOND);
    queue.add_frame(-1, 100, shade(1));
    queue.add_frame(-2, 150, shade(2));

    assert!(queue.is_frame_superseded(-2, 120));
    assert!(!queue.is_frame_superseded(-1, 120));
    assert_eq!(queue.generate(200), Some(shade(1)));
}

#[test]
fn a_collision_keeps_the_higher_channel() {
    let mut queue = ChannelTimeQueuedFrameGenerator::new(2500, SECOND);
    queue.add_frame(2, 100, shade(2));
    queue.add_frame(1, 100, shade(1));
    assert_eq!(queue.len(), 1);
    assert_eq!(queue.generate(100), Some(shade(2)));
    assert_eq!(queue.last_served(), Some((2, 100)));

    let mut queue = ChannelTimeQueuedFrameGenerator::new(2500, SECOND);
    queue.add_frame(1, 100, shade(1));
    queue.add_frame(2, 100, shade(2));
    assert_eq!(queue.len(), 1);
    assert_eq!(queue.generate(100), Some(shade(2)));
}

#[test]
fn a_collision_on_one_channel_keeps_the_later_submission() {
    let mut queue = ChannelTimeQueuedFrameGenerator::new(2500, SECOND);
    queue.add_frame(0, 100, shade(1));
    queue.add_frame(0, 100, shade(2));

    assert_eq!(queue.len(), 1);
    assert_eq!(queue.generate(100), Some(shade(2)));
}

#[test]
fn a_full_queue_gives_up_its_latest_entries() {
    let mut queue = ChannelTimeQueuedFrameGenerator::new(2, SECOND);
    assert_eq!(queue.capacity(), 2);
    queue.add_frame(0, 100, shade(1));
    queue.add_frame(0, 300, shade(3));
    assert_eq!(queue.len(), 2);

    queue.add_frame(0, 200, shade(2));
    assert_eq!(queue.len(), 2);
    assert_eq!(queue.generate(100), Some(shade(1)));
    assert_eq!(queue.generate(200), Some(shade(2)));
    assert_eq!(queue.generate(300), None);
}

#[test]
fn a_full_queue_makes_room_even_for_a_submission_that_loses_a_collision() {
    let mut queue = ChannelTimeQueuedFrameGenerator::new(2, SECOND);
    queue.add_frame(5, 100, shade(1));
    queue.add_frame(0, 300, shade(3));

    queue.add_frame(0, 100, shade(9));
    assert_eq!(queue.len(), 1);
    assert_eq!(queue.generate(400), Some(shade(1)));
}

#[test]
fn a_queue_of_one_holds_the_submission_made_last() {
    let mut queue = ChannelTimeQueuedFrameGenerator::new(1, SECOND);
    queue.add_frame(0, 100, shade(1));
    queue.add_frame(0, 50, shade(2));
    queue.add_frame(0, 200, shade(3));

    assert_eq!(queue.len(), 1);
    assert_eq!(queue.generate(150), None);
    assert_eq!(queue.generate(200), Some(shade(3)));
}

#[test]
fn the_probe_follows_the_window() {
    let mut queue = ChannelTimeQueuedFrameGenerator::new(2500, SECOND);
    queue.add_frame(1, 100, shade(1));

    assert!(queue.is_frame_superseded(0, 100));
    assert!(!queue.is_frame_superseded(0, 50));
    assert!(!queue.is_frame_superseded(0, 1_001_000));
    assert!(!queue.is_frame_superseded(1, 150));
    assert!(queue.is_frame_superseded(0, 100 + SECOND));
    assert!(!queue.is_frame_superseded(0, 101 + SECOND));
}

#[test]
fn the_probe_sees_every_stored_entry() {
    let mut queue = ChannelTimeQueuedFrameGenerator::new(2500, 10);
    queue.add_frame(0, 100, shade(1));
    queue.add_frame(3, 200, shade(2));
    queue.add_frame(0, 300, shade(3));

    assert!(!queue.is_frame_superseded(1, 150));
    assert!(queue.is_frame_superseded(1, 205));
    assert!(queue.is_frame_superseded(2, 210));
    assert!(!queue.is_frame_superseded(3, 205));
    assert!(!queue.is_frame_superseded(1, 211));
}

#[test]
fn a_window_without_length_reaches_its_own_instant_only() {
    let mut queue = ChannelTimeQueuedFrameGenerator::new(2500, 0);
    queue.add_frame(1, 100, shade(1));
    queue.add_frame(0, 100 + 1, shade(2));

    assert!(queue.is_frame_superseded(0, 100));
    assert!(!queue.is_frame_superseded(0, 101));
    assert_eq!(queue.generate(101), Some(shade(2)));
}

#[test]
fn windows_near_the_largest_instant_do_not_overflow() {
    let mut queue = ChannelTimeQueuedFrameGenerator::new(2500, u128::MAX);
    queue.add_frame(1, u128::MAX - 5, shade(1));
    queue.add_frame(0, u128::MAX - 1, shade(2));
    queue.add_frame(0, u128::MAX, shade(3));

    assert!(queue.is_frame_superseded(0, u128::MAX));
    assert!(!queue.is_frame_superseded(0, u128::MAX - 6));
    assert_eq!(queue.generate(u128::MAX - 1), Some(shade(1)));
    assert_eq!(queue.generate(u128::MAX), Some(shade(3)));
}

#[test]
fn what_a_query_answers_is_due_and_was_submitted() {
    let mut queue = ChannelTimeQueuedFrameGenerator::new(2500, 5);
    let times: [u128; 6] = [40, 10, 30, 60, 20, 50];
    for t in times {
        queue.add_frame((t % 3) as i8, t, shade(t as u8));
    }
    let mut now: u128 = 0;
    while now <= 70 {
        if let Some(frame) = queue.generate(now) {
            let level = frame.pixel_data()[0].r as u128;
            assert!(level <= now);
            assert!(times.contains(&level));
            assert_eq!(queue.last_served(), Some(((level % 3) as i8, level)));
        }
        now += 7;
    }
    assert_eq!(queue.len(), 0);
}
