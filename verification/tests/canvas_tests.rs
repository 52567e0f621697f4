use chart_raster::canvas::Canvas;
use chart_raster::color::Color;
use chart_raster::error::ChartError;

fn rgba(r: u8, g: u8, b: u8, a: u8) -> Color {
    Color { r, g, b, a }
}

#[test]
fn new_rejects_zero_width() {
    assert_eq!(Canvas::new(0, 100).unwrap_err(), ChartError::InvalidDimensions);
}

#[test]
fn new_rejects_zero_height() {
    assert_eq!(Canvas::new(100, 0).unwrap_err(), ChartError::InvalidDimensions);
}

#[test]
fn new_initializes_to_transparent_black() {
    let c = Canvas::new(4, 3).unwrap();
    assert_eq!(c.width(), 4);
    assert_eq!(c.height(), 3);
    for x in 0..4 {
        for y in 0..3 {
            assert_eq!(c.get_pixel(x, y), Some(rgba(0, 0, 0, 0)));
        }
    }
}

#[test]
fn fill_sets_every_pixel() {
    let mut c = Canvas::new(5, 4).unwrap();
    let red = rgba(200, 10, 10, 255);
    c.fill(red);
    for x in 0..5 {
        for y in 0..4 {
            assert_eq!(c.get_pixel(x, y), Some(red));
        }
    }
}

#[test]
fn set_pixel_changes_exactly_one_pixel() {
    let mut c = Canvas::new(5, 4).unwrap();
    let bg = rgba(1, 2, 3, 4);
    let mark = rgba(9, 8, 7, 6);
    c.fill(bg);
    assert_eq!(c.set_pixel(2, 1, mark), Ok(()));
    for x in 0..5 {
        for y in 0..4 {
            let expected = if x == 2 && y == 1 { mark } else { bg };
            assert_eq!(c.get_pixel(x, y), Some(expected));
        }
    }
}

#[test]
fn set_pixel_out_of_bounds_reports_and_leaves_buffer() {
    let mut c = Canvas::new(3, 3).unwrap();
    let bg = rgba(5, 5, 5, 5);
    c.fill(bg);
    assert_eq!(c.set_pixel(3, 0, rgba(1, 1, 1, 1)), Err(ChartError::OutOfBounds));
    assert_eq!(c.set_pixel(0, 3, rgba(1, 1, 1, 1)), Err(ChartError::OutOfBounds));
    assert_eq!(c.set_pixel(7, 9, rgba(1, 1, 1, 1)), Err(ChartError::OutOfBounds));
    for x in 0..3 {
        for y in 0..3 {
            assert_eq!(c.get_pixel(x, y), Some(bg));
        }
    }
}

#[test]
fn get_pixel_out_of_bounds_is_none() {
    let c = Canvas::new(2, 2).unwrap();
    assert_eq!(c.get_pixel(2, 0), None);
    assert_eq!(c.get_pixel(0, 2), None);
}

#[test]
fn fill_rect_paints_exactly_the_rectangle() {
    let mut c = Canvas::new(6, 5).unwrap();
    let bg = rgba(0, 0, 0, 255);
    let ink = rgba(255, 0, 0, 255);
    c.fill(bg);
    c.fill_rect(1, 4, 2, 4, ink);
    for x in 0..6 {
        for y in 0..5 {
            let inside = (1..4).contains(&x) && (2..4).contains(&y);
            let expected = if inside { ink } else { bg };
            assert_eq!(c.get_pixel(x, y), Some(expected));
        }
    }
}
