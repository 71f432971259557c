use matryx::canvas::{Canvas, Color};
use matryx::director::{compose_day, next_hue_shift, select_mode, sink_brightness, DisplayMode, HUE_SHIFT_START};

#[test]
fn dark_room_selects_night_mode() {
    assert_eq!(select_mode(0), DisplayMode::Night);
    assert_eq!(select_mode(24), DisplayMode::Night);
    assert_eq!(select_mode(25), DisplayMode::Day);
    assert_eq!(select_mode(255), DisplayMode::Day);
    assert_eq!(sink_brightness(DisplayMode::Night), 10);
    assert_eq!(sink_brightness(DisplayMode::Day), 100);
}

#[test]
fn hue_shift_climbs_and_wraps() {
    assert_eq!(next_hue_shift(HUE_SHIFT_START), -179);
    assert_eq!(next_hue_shift(0), 1);
    assert_eq!(next_hue_shift(179), 180);
    assert_eq!(next_hue_shift(180), HUE_SHIFT_START);
}

#[test]
fn day_frame_dims_under_the_overlay_then_rotates() {
    let mut scene = Canvas::new(2, 1);
    scene.clear_with_color(Color { r: 200, g: 100, b: 50 });
    let mut overlay = Canvas::new(2, 1);
    overlay.set_pixel(1, 0, 255, 255, 255);
    compose_day(
        &mut scene,
        &overlay,
        |c| Color { r: c.r / 2, g: c.g / 2, b: c.b / 2 },
        |c| Color { r: c.b, g: c.r, b: c.g },
    );
    assert_eq!(scene.get_pixel(0, 0), Color { r: 50, g: 200, b: 100 });
    assert_eq!(scene.get_pixel(1, 0), Color { r: 25, g: 100, b: 50 });
}
