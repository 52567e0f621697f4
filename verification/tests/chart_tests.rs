use chart_raster::chart::{max_x_of, max_y_of, point_center, render, render_axes, ChartConfig,
    DataPoint};
use chart_raster::color::Color;
use chart_raster::error::ChartError;

const WHITE: Color = Color { r: 255, g: 255, b: 255, a: 255 };
const BLACK: Color = Color { r: 0, g: 0, b: 0, a: 255 };
const BLUE: Color = Color { r: 0, g: 0, b: 255, a: 255 };

fn cfg(width: u32, height: u32, border: u32, marker_half: u32) -> ChartConfig {
    ChartConfig {
        width,
        height,
        border,
        marker_half,
        background: WHITE,
        axis_color: BLACK,
        marker_color: BLUE,
    }
}

fn point(x: u32, y: u32) -> DataPoint {
    DataPoint { x, y }
}

#[test]
fn series_maxima() {
    let series = vec![point(10, 10), point(20, 20), point(20, 10)];
    assert_eq!(max_x_of(&series), 20);
    assert_eq!(max_y_of(&series), 20);
    assert_eq!(max_x_of(&Vec::new()), 0);
    assert_eq!(max_y_of(&Vec::new()), 0);
}

#[test]
fn scenario_point_mapping_on_800_canvas() {
    // border 25 on 800x800: scale (800 - 50) / 20 = 37 on both axes,
    // so (20, 20) is centered at (37*20 + 25, 800 - 37*20 - 25).
    let c = cfg(800, 800, 25, 2);
    let center = point_center(&c, 20, 20, point(20, 20));
    assert_eq!(center, (765, 35));
    let center = point_center(&c, 20, 20, point(10, 10));
    assert_eq!(center, (395, 405));
}

#[test]
fn scenario_render_three_points() {
    let c = cfg(800, 800, 25, 2);
    let series = vec![point(10, 10), point(20, 20), point(20, 10)];
    let canvas = render(&series, &c).unwrap();
    assert_eq!(canvas.width(), 800);
    assert_eq!(canvas.height(), 800);
    // Marker of (20, 20): the square [763, 767) x [33, 37).
    assert_eq!(canvas.get_pixel(765, 35), Some(BLUE));
    assert_eq!(canvas.get_pixel(763, 33), Some(BLUE));
    assert_eq!(canvas.get_pixel(766, 36), Some(BLUE));
    assert_eq!(canvas.get_pixel(767, 35), Some(WHITE));
    assert_eq!(canvas.get_pixel(765, 37), Some(WHITE));
    // Markers of the other points.
    assert_eq!(canvas.get_pixel(395, 405), Some(BLUE));
    assert_eq!(canvas.get_pixel(765, 405), Some(BLUE));
    // Axis lines: column 25 and row 775, spanning [25, 775).
    assert_eq!(canvas.get_pixel(25, 400), Some(BLACK));
    assert_eq!(canvas.get_pixel(25, 25), Some(BLACK));
    assert_eq!(canvas.get_pixel(400, 775), Some(BLACK));
    assert_eq!(canvas.get_pixel(774, 775), Some(BLACK));
    // Just off the axis lines and away from markers: background.
    assert_eq!(canvas.get_pixel(24, 400), Some(WHITE));
    assert_eq!(canvas.get_pixel(400, 776), Some(WHITE));
    assert_eq!(canvas.get_pixel(775, 775), Some(WHITE));
    assert_eq!(canvas.get_pixel(0, 0), Some(WHITE));
}

#[test]
fn axes_only_mode_draws_axes_over_background() {
    let canvas = render_axes(&cfg(100, 100, 10, 2)).unwrap();
    // Vertical axis at column 10, rows [10, 90); horizontal at row 90,
    // columns [10, 90).
    assert_eq!(canvas.get_pixel(10, 10), Some(BLACK));
    assert_eq!(canvas.get_pixel(10, 89), Some(BLACK));
    assert_eq!(canvas.get_pixel(50, 90), Some(BLACK));
    assert_eq!(canvas.get_pixel(10, 90), Some(BLACK));
    assert_eq!(canvas.get_pixel(10, 9), Some(WHITE));
    assert_eq!(canvas.get_pixel(90, 90), Some(WHITE));
    assert_eq!(canvas.get_pixel(50, 50), Some(WHITE));
}

#[test]
fn vertical_axis_span_follows_the_width_bound() {
    // On a 120x100 canvas with border 25 the vertical axis spans rows
    // [25, 95): past row H-B = 75, because both spans are bounded by
    // W-B. The single point (1, 1) is marked around (95, 25), far from
    // the probed pixels.
    let canvas = render(&vec![point(1, 1)], &cfg(120, 100, 25, 2)).unwrap();
    assert_eq!(canvas.get_pixel(25, 80), Some(BLACK));
    assert_eq!(canvas.get_pixel(25, 94), Some(BLACK));
    assert_eq!(canvas.get_pixel(25, 95), Some(WHITE));
    // The horizontal axis still sits at row 75, columns [25, 95).
    assert_eq!(canvas.get_pixel(50, 75), Some(BLACK));
    assert_eq!(canvas.get_pixel(95, 75), Some(WHITE));
}

#[test]
fn markers_draw_over_axis_lines() {
    // Scales on a 100x100 canvas with border 10: (100 - 20) / 10 = 8.
    // The point (0, 5) is centered at (10, 50), on the vertical axis;
    // its square [8, 12) x [48, 52) wins over the axis color.
    let series = vec![point(0, 5), point(10, 10)];
    let canvas = render(&series, &cfg(100, 100, 10, 2)).unwrap();
    assert_eq!(canvas.get_pixel(10, 50), Some(BLUE));
    assert_eq!(canvas.get_pixel(10, 47), Some(BLACK));
    assert_eq!(canvas.get_pixel(10, 52), Some(BLACK));
}

#[test]
fn empty_series_is_degenerate() {
    let c = cfg(800, 800, 25, 2);
    let r = render(&Vec::new(), &c);
    assert_eq!(r.unwrap_err(), ChartError::DegenerateScale);
}

#[test]
fn zero_maximum_is_degenerate() {
    let c = cfg(800, 800, 25, 2);
    let r = render(&vec![point(0, 7), point(0, 3)], &c);
    assert_eq!(r.unwrap_err(), ChartError::DegenerateScale);
    let r = render(&vec![point(7, 0)], &c);
    assert_eq!(r.unwrap_err(), ChartError::DegenerateScale);
}

#[test]
fn zero_dimension_is_invalid() {
    let r = render(&vec![point(1, 1)], &cfg(0, 100, 0, 2));
    assert_eq!(r.unwrap_err(), ChartError::InvalidDimensions);
    let r = render(&vec![point(1, 1)], &cfg(100, 0, 0, 2));
    assert_eq!(r.unwrap_err(), ChartError::InvalidDimensions);
}

#[test]
fn zero_border_axis_row_is_out_of_bounds() {
    // With no border the horizontal axis would sit at row H, one past
    // the bottom edge.
    let r = render(&vec![point(1, 1)], &cfg(100, 100, 0, 2));
    assert_eq!(r.unwrap_err(), ChartError::OutOfBounds);
}

#[test]
fn wide_canvas_vertical_axis_is_out_of_bounds() {
    // The vertical axis spans rows [B, W-B); with W-B beyond H the
    // checked write fails rather than running off the buffer.
    let r = render(&vec![point(1, 1)], &cfg(900, 800, 25, 2));
    assert_eq!(r.unwrap_err(), ChartError::OutOfBounds);
}

#[test]
fn marker_is_clipped_at_the_edges() {
    // 40x40 canvas, border 1: scales are (40-2)/38 = 1. The point
    // (0, 1) is centered at (1, 38), so its 4x4 square sticks out past
    // the left edge; (38, 38) is centered at (39, 1) and sticks out
    // past the right edge. Both are clipped silently.
    let c = cfg(40, 40, 1, 2);
    let series = vec![point(0, 1), point(38, 38)];
    let canvas = render(&series, &c).unwrap();
    // In-bounds part of the first marker: [0, 3) x [36, 40).
    assert_eq!(canvas.get_pixel(0, 37), Some(BLUE));
    assert_eq!(canvas.get_pixel(2, 39), Some(BLUE));
    // In-bounds part of the second marker: [37, 40) x [0, 3).
    assert_eq!(canvas.get_pixel(39, 1), Some(BLUE));
    assert_eq!(canvas.get_pixel(37, 0), Some(BLUE));
    // Just outside the clipped squares.
    assert_eq!(canvas.get_pixel(3, 37), Some(WHITE));
    assert_eq!(canvas.get_pixel(36, 1), Some(WHITE));
}
