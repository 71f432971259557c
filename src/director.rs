use crate::canvas::{Canvas, Color};
use crate::compositor::{filter_bright_background, filter_hue_shift, pair_ok};
use vstd::prelude::*;

verus! {

/// Ambient brightness at or below which the display goes into night mode.
pub const NIGHT_LEVEL: u8 = 24;

/// Display brightness, in percent, in night mode.
pub const NIGHT_SINK_BRIGHTNESS: u8 = 10;

/// Display brightness, in percent, in day mode.
pub const DAY_SINK_BRIGHTNESS: u8 = 100;

/// The hue rotation, in degrees, on the first frame; it climbs one degree per
/// frame up to the opposite angle and then starts over.
pub const HUE_SHIFT_START: i32 = -180;

/// Lightness factor, in thousandths, of the scene behind the overlay in day
/// mode.
pub const BACKGROUND_LIGHTNESS_PERMILLE: u32 = 100;

/// How a frame is rendered.
#[derive(Clone, Copy, Debug, PartialEq, Eq, Structural)]
pub enum DisplayMode {
    /// A dark room: only the overlay, at low display brightness.
    Night,
    /// The generated scene behind the overlay, hue-rotated, at full brightness.
    Day,
}

/// The mode for ambient brightness `level`.
pub open spec fn mode_for(level: u8) -> DisplayMode {
    if level <= NIGHT_LEVEL {
        DisplayMode::Night
    } else {
        DisplayMode::Day
    }
}

/// Picks the rendering mode from the latest published ambient brightness.
pub fn select_mode(level: u8) -> (m: DisplayMode)
    ensures
        m == mode_for(level),
{
    if level <= NIGHT_LEVEL {
        DisplayMode::Night
    } else {
        DisplayMode::Day
    }
}

/// The display brightness, in percent, that a mode asks of the sink.
pub fn sink_brightness(mode: DisplayMode) -> (b: u8)
    ensures
        b == match mode {
            DisplayMode::Night => NIGHT_SINK_BRIGHTNESS,
            DisplayMode::Day => DAY_SINK_BRIGHTNESS,
        },
        b <= 100,
{
    match mode {
        DisplayMode::Night => NIGHT_SINK_BRIGHTNESS,
        DisplayMode::Day => DAY_SINK_BRIGHTNESS,
    }
}

/// The hue rotation of the next frame: one degree more, or back to
/// `HUE_SHIFT_START` from the opposite angle.
pub fn next_hue_shift(shift: i32) -> (r: i32)
    requires
        HUE_SHIFT_START <= shift <= -HUE_SHIFT_START,
    ensures
        HUE_SHIFT_START <= r <= -HUE_SHIFT_START,
        r == if shift == -HUE_SHIFT_START {
            HUE_SHIFT_START as int
        } else {
            shift + 1
        },
{
    if shift == -HUE_SHIFT_START {
        HUE_SHIFT_START
    } else {
        shift + 1
    }
}

/// `after` is what a day-mode pixel `before` becomes: dimmed by `dim` unless
/// the overlay pixel above it is black, then rotated by `rotate`.
pub open spec fn day_pixel<D: Fn(Color) -> Color, R: Fn(Color) -> Color>(
    dim: D,
    rotate: R,
    before: Color,
    overlay_black: bool,
    after: Color,
) -> bool {
    exists|m: Color|
        #![trigger rotate.ensures((m,), after)]
        (if overlay_black {
            m == before
        } else {
            dim.ensures((before,), m)
        }) && rotate.ensures((m,), after)
}

/// The day-mode frame: the scene is dimmed by `dim` wherever the overlay is
/// not black (so the overlay's text stands out), then every pixel is
/// hue-rotated by `rotate`.
pub fn compose_day<D: Fn(Color) -> Color, R: Fn(Color) -> Color>(
    scene: &mut Canvas,
    overlay: &Canvas,
    dim: D,
    rotate: R,
)
    requires
        pair_ok(old(scene), overlay),
        forall|c: Color| dim.requires((c,)),
        forall|c: Color| rotate.requires((c,)),
    ensures
        final(scene).wf(),
        final(scene).same_shape(old(scene)),
        forall|p: int|
            0 <= p < old(scene).size() ==> day_pixel(
                dim,
                rotate,
                old(scene).color(p),
                overlay.color(p).is_black(),
                #[trigger] final(scene).color(p),
            ),
{
    let ghost d = dim;
    let ghost r = rotate;
    filter_bright_background(scene, overlay, dim);
    let ghost mid = *scene;
    filter_hue_shift(scene, rotate);
    proof {
        assert forall|p: int| 0 <= p < old(scene).size() implies day_pixel(
            d,
            r,
            old(scene).color(p),
            overlay.color(p).is_black(),
            #[trigger] scene.color(p),
        ) by {
            assert(r.ensures((mid.color(p),), scene.color(p)));
        }
    }
}

} // verus!
