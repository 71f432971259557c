use matryx::monitor::{
    frame_brightness, needs_fallback, pixel_format, BrightnessCell, PixelFormat, Monitor, MonitorAction, MonitorEvent, ATTEMPT_MAX,
    DEFAULT_BRIGHTNESS, RETRY_BACKOFF_MILLIS, SAMPLE_DELAY_MILLIS,
};

#[test]
fn three_failed_opens_then_success_publishes_on_the_fourth_attempt() {
    let cell = BrightnessCell::new();
    let mut m = Monitor::new();
    let mut waited: u64 = 0;
    let mut action = m.start();
    let mut opens = 0;
    let mut published_at_attempt = None;
    for _ in 0..10 {
        match action {
            MonitorAction::OpenAfter(ms) => {
                waited += ms;
                opens += 1;
                let event = if opens <= 3 { MonitorEvent::OpenFailed } else { MonitorEvent::Opened };
                action = m.on_event(event);
            }
            MonitorAction::Read => {
                action = m.on_event(MonitorEvent::FrameRead(42));
            }
            MonitorAction::Publish(v, _) => {
                assert_eq!(cell.read(), DEFAULT_BRIGHTNESS);
                cell.publish(v);
                published_at_attempt = Some(m.attempt);
                break;
            }
        }
    }
    assert_eq!(published_at_attempt, Some(4));
    assert!(waited >= 3 * RETRY_BACKOFF_MILLIS);
    assert_eq!(cell.read(), 42);
}

#[test]
fn failed_read_restarts_the_session() {
    let mut m = Monitor::new();
    assert_eq!(m.on_event(MonitorEvent::Opened), MonitorAction::Read);
    assert!(m.streaming);
    assert_eq!(m.on_event(MonitorEvent::FrameRead(7)), MonitorAction::Publish(7, SAMPLE_DELAY_MILLIS));
    assert_eq!(m.on_event(MonitorEvent::ReadFailed), MonitorAction::OpenAfter(RETRY_BACKOFF_MILLIS));
    assert!(!m.streaming);
    assert_eq!(m.attempt, 2);
}

#[test]
fn attempt_counter_wraps_to_one() {
    let mut m = Monitor::new();
    for _ in 0..(ATTEMPT_MAX - 1) {
        m.on_event(MonitorEvent::OpenFailed);
    }
    assert_eq!(m.attempt, ATTEMPT_MAX);
    m.on_event(MonitorEvent::OpenFailed);
    assert_eq!(m.attempt, 1);
}

#[test]
fn brightness_is_the_ninetieth_percentile_of_luma() {
    let mut frame = Vec::new();
    for v in 0..10u8 {
        frame.extend_from_slice(&[v, v, v]);
    }
    assert_eq!(frame_brightness(frame, 5, 2), Some(8));
    assert_eq!(frame_brightness(vec![100; 12], 2, 2), Some(100));
}

#[test]
fn brightness_uses_srgb_luma_weights() {
    assert_eq!(frame_brightness(vec![255, 0, 0], 1, 1), Some(54));
    assert_eq!(frame_brightness(vec![0, 255, 0], 1, 1), Some(182));
    assert_eq!(frame_brightness(vec![0, 0, 255], 1, 1), Some(18));
}

#[test]
fn malformed_frame_has_no_brightness() {
    assert_eq!(frame_brightness(vec![1, 2, 3, 4], 1, 1), None);
    assert_eq!(frame_brightness(vec![], 0, 0), None);
}

#[test]
fn capture_formats_by_four_character_code() {
    assert_eq!(pixel_format(*b"RGB3"), PixelFormat::Rgb);
    assert_eq!(pixel_format(*b"MJPG"), PixelFormat::Mjpeg);
    assert_eq!(pixel_format(*b"YUYV"), PixelFormat::Unsupported);
    assert!(!needs_fallback(Some(*b"RGB3")));
    assert!(needs_fallback(Some(*b"YUYV")));
    assert!(needs_fallback(None));
}

#[test]
fn oversized_frame_dimensions_have_no_brightness() {
    assert_eq!(frame_brightness(vec![0; 3], 65536, 65536), None);
}
