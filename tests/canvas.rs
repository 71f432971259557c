use matryx::canvas::{Canvas, Color};

fn rgb(r: u8, g: u8, b: u8) -> Color {
    Color { r, g, b }
}

#[test]
fn new_canvas_is_black() {
    let c = Canvas::new(4, 3);
    assert_eq!(c.width, 4);
    assert_eq!(c.height, 3);
    assert_eq!(c.pixels().len(), 36);
    assert!(c.pixels().iter().all(|&b| b == 0));
}

#[test]
fn set_then_get_returns_the_same_channels() {
    let mut c = Canvas::new(5, 4);
    let cases = [(0u32, 0u32, 0u8, 0u8, 0u8), (4, 3, 255, 255, 255), (2, 1, 1, 128, 254), (0, 3, 7, 0, 200)];
    for &(x, y, r, g, b) in cases.iter() {
        c.set_pixel(x, y, r, g, b);
        assert_eq!(c.get_pixel(x, y), rgb(r, g, b));
    }
}

#[test]
fn set_pixel_touches_only_its_pixel() {
    let mut c = Canvas::new(3, 2);
    c.set_pixel(1, 1, 9, 8, 7);
    assert_eq!(c.pixels()[3 * 4..3 * 4 + 3], [9, 8, 7]);
    let others = (0..6).filter(|&p| p != 4).all(|p| c.pixels()[3 * p..3 * p + 3] == [0, 0, 0]);
    assert!(others);
}

#[test]
fn clear_with_color_then_clear() {
    let mut c = Canvas::new(2, 2);
    c.clear_with_color(rgb(10, 20, 30));
    for y in 0..2 {
        for x in 0..2 {
            assert_eq!(c.get_pixel(x, y), rgb(10, 20, 30));
        }
    }
    c.clear();
    assert!(c.pixels().iter().all(|&b| b == 0));
}
