use matryx::canvas::{Canvas, Color};
use matryx::compositor::{
    filter_background, filter_bright_background, filter_bright_foreground, filter_darken,
    filter_foreground, filter_hue_shift, filter_red,
};
use palette::{FromColor, Hsl, IntoColor, Lch, ShiftHue, Srgb};

fn rgb(r: u8, g: u8, b: u8) -> Color {
    Color { r, g, b }
}

fn to_byte(v: f32) -> u8 {
    (v * 255.0) as u8
}

fn lightness(c: Color, factor: f32) -> Color {
    let s = Srgb::new(c.r as f32 / 255.0, c.g as f32 / 255.0, c.b as f32 / 255.0);
    let lch = Lch::from_color(s);
    let mut hsl: Hsl = lch.into_color();
    hsl.lightness *= factor;
    let out = Srgb::from_color(hsl);
    rgb(to_byte(out.red), to_byte(out.green), to_byte(out.blue))
}

fn rotate(c: Color, degrees: f32) -> Color {
    let s = Srgb::new(c.r as f32 / 255.0, c.g as f32 / 255.0, c.b as f32 / 255.0);
    let out = Srgb::from_color(Lch::from_color(s).shift_hue(degrees));
    let round = |v: f32| (v * 255.0).round().clamp(0.0, 255.0) as u8;
    rgb(round(out.red), round(out.green), round(out.blue))
}

#[test]
fn foreground_keeps_non_black_pixels() {
    let mut a = Canvas::new(3, 1);
    let mut b = Canvas::new(3, 1);
    a.set_pixel(0, 0, 5, 6, 7);
    a.set_pixel(1, 0, 255, 0, 0);
    b.clear_with_color(rgb(2, 2, 2));
    filter_foreground(&mut a, &b);
    assert_eq!(a.get_pixel(0, 0), rgb(5, 6, 7));
    assert_eq!(a.get_pixel(1, 0), rgb(255, 0, 0));
    assert_eq!(a.get_pixel(2, 0), rgb(2, 2, 2));
}

#[test]
fn background_keeps_canvas_where_mask_is_not_black() {
    let mut a = Canvas::new(3, 1);
    let mut b = Canvas::new(3, 1);
    a.clear_with_color(rgb(5, 6, 7));
    b.set_pixel(0, 0, 1, 1, 1);
    b.set_pixel(1, 0, 255, 0, 0);
    filter_background(&mut a, &b);
    assert_eq!(a.get_pixel(0, 0), rgb(5, 6, 7));
    assert_eq!(a.get_pixel(1, 0), rgb(5, 6, 7));
    assert_eq!(a.get_pixel(2, 0), rgb(0, 0, 0));
}

#[test]
fn red_filter_zeroes_green_and_blue() {
    let mut a = Canvas::new(1, 2);
    a.set_pixel(0, 0, 200, 100, 50);
    a.set_pixel(0, 1, 0, 100, 50);
    filter_red(&mut a);
    assert_eq!(a.get_pixel(0, 0), rgb(200, 0, 0));
    assert_eq!(a.get_pixel(0, 1), rgb(0, 0, 0));
}

#[test]
fn brightness_scaling_dims_red_and_keeps_green_blue_zero() {
    let mut c = Canvas::new(4, 4);
    for y in 0..4 {
        for x in 0..4 {
            c.set_pixel(x, y, 255, 0, 0);
        }
    }
    let mut mask = Canvas::new(4, 4);
    mask.clear_with_color(rgb(255, 255, 255));
    filter_bright_background(&mut c, &mask, |p| lightness(p, 0.5));
    for y in 0..4 {
        for x in 0..4 {
            let p = c.get_pixel(x, y);
            assert!(p.r < 255, "red did not decrease at ({}, {}): {:?}", x, y, p);
            assert!(p.r > 0);
            assert_eq!(p.g, 0);
            assert_eq!(p.b, 0);
        }
    }
}

#[test]
fn bright_background_leaves_pixels_behind_black_mask() {
    let mut c = Canvas::new(2, 1);
    c.clear_with_color(rgb(255, 0, 0));
    let mut mask = Canvas::new(2, 1);
    mask.set_pixel(1, 0, 255, 255, 255);
    filter_bright_background(&mut c, &mask, |p| lightness(p, 0.1));
    assert_eq!(c.get_pixel(0, 0), rgb(255, 0, 0));
    assert!(c.get_pixel(1, 0).r < 255);
}

#[test]
fn bright_foreground_dims_where_canvas_is_dark() {
    let mut c = Canvas::new(2, 1);
    c.set_pixel(0, 0, 0, 0, 9);
    let mut other = Canvas::new(2, 1);
    other.clear_with_color(rgb(255, 0, 0));
    filter_bright_foreground(&mut c, &other, |p| lightness(p, 0.5));
    assert_eq!(c.get_pixel(0, 0), rgb(255, 0, 0));
    assert!(c.get_pixel(1, 0).r < 255);
}

#[test]
fn darken_keeps_only_dimmed_red() {
    let mut c = Canvas::new(3, 1);
    c.clear_with_color(rgb(255, 0, 0));
    filter_darken(&mut c, |p| lightness(p, 0.5));
    for x in 0..3 {
        let p = c.get_pixel(x, 0);
        assert!(p.r < 255 && p.r > 0);
        assert_eq!((p.g, p.b), (0, 0));
    }
}

#[test]
fn hue_rotation_there_and_back_restores_the_canvas() {
    let colors = [rgb(150, 120, 100), rgb(90, 110, 130), rgb(128, 128, 128), rgb(120, 140, 110), rgb(0, 0, 0)];
    let mut c = Canvas::new(colors.len() as u32, 1);
    for (x, col) in colors.iter().enumerate() {
        c.set_pixel(x as u32, 0, col.r, col.g, col.b);
    }
    filter_hue_shift(&mut c, |p| rotate(p, 180.0));
    assert_ne!(c.get_pixel(0, 0), colors[0]);
    filter_hue_shift(&mut c, |p| rotate(p, -180.0));
    for (x, col) in colors.iter().enumerate() {
        let p = c.get_pixel(x as u32, 0);
        for (a, b) in [(p.r, col.r), (p.g, col.g), (p.b, col.b)] {
            assert!((a as i32 - b as i32).abs() <= 2, "pixel {} became {:?}, was {:?}", x, p, col);
        }
    }
}
