use chart_raster::canvas::Canvas;
use chart_raster::chart::{render, ChartConfig, DataPoint};
use chart_raster::codec::{decode_png, png_round_trip};
use chart_raster::color::Color;
use chart_raster::error::ChartError;

fn rgba(r: u8, g: u8, b: u8, a: u8) -> Color {
    Color { r, g, b, a }
}

fn assert_same_pixels(a: &Canvas, b: &Canvas) {
    assert_eq!(a.width(), b.width());
    assert_eq!(a.height(), b.height());
    for x in 0..a.width() {
        for y in 0..a.height() {
            assert_eq!(a.get_pixel(x, y), b.get_pixel(x, y));
        }
    }
}

#[test]
fn png_round_trip_reproduces_the_buffer() {
    let mut c = Canvas::new(5, 4).unwrap();
    c.fill(rgba(10, 20, 30, 255));
    c.set_pixel(0, 0, rgba(255, 0, 0, 255)).unwrap();
    c.set_pixel(4, 3, rgba(0, 255, 0, 128)).unwrap();
    c.set_pixel(2, 1, rgba(0, 0, 255, 7)).unwrap();
    let back = png_round_trip(&c).unwrap();
    assert_same_pixels(&c, &back);
}

#[test]
fn encode_then_decode_rendered_chart() {
    let cfg = ChartConfig {
        width: 120,
        height: 120,
        border: 10,
        marker_half: 2,
        background: rgba(255, 255, 255, 255),
        axis_color: rgba(0, 0, 0, 255),
        marker_color: rgba(0, 0, 255, 255),
    };
    let series = vec![DataPoint { x: 3, y: 4 }, DataPoint { x: 9, y: 2 }];
    let canvas = render(&series, &cfg).unwrap();
    let bytes = canvas.encode_png().unwrap();
    // A PNG stream starts with the fixed eight-byte signature.
    assert_eq!(&bytes[0..8], &[0x89, 0x50, 0x4E, 0x47, 0x0D, 0x0A, 0x1A, 0x0A]);
    let decoded = decode_png(&bytes).unwrap();
    assert_same_pixels(&canvas, &decoded);
}

#[test]
fn decode_rejects_garbage() {
    let junk: Vec<u8> = vec![1, 2, 3, 4, 5, 6, 7, 8, 9];
    assert_eq!(decode_png(&junk).unwrap_err(), ChartError::EncodingError);
}
