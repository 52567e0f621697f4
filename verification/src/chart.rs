use vstd::prelude::*;

use crate::canvas::Canvas;
use crate::color::Color;
use crate::error::ChartError;

verus! {

use vstd::arithmetic::div_mod::{
    lemma_fundamental_div_mod,
    lemma_div_pos_is_pos,
    lemma_mod_division_less_than_divisor,
};
use vstd::arithmetic::mul::{lemma_mul_inequality, lemma_mul_nonnegative};

/// One data-space point of a series.
#[derive(Clone, Copy, Debug, PartialEq, Eq, Structural)]
pub struct DataPoint {
    pub x: u32,
    pub y: u32,
}

/// Everything one render call needs besides the series; immutable for
/// the call.
#[derive(Clone, Copy, Debug, PartialEq, Eq, Structural)]
pub struct ChartConfig {
    /// Canvas width in pixels.
    pub width: u32,
    /// Canvas height in pixels.
    pub height: u32,
    /// Inset reserved on each edge before the axis lines.
    pub border: u32,
    /// Half the side of a square marker.
    pub marker_half: u32,
    /// Background fill color.
    pub background: Color,
    /// Axis line color.
    pub axis_color: Color,
    /// Marker color.
    pub marker_color: Color,
}

impl ChartConfig {
    /// The configuration invariant: markers have positive size, and on
    /// a nonzero canvas the border leaves room on every edge.
    pub open spec fn valid(self) -> bool {
        &&& self.marker_half >= 1
        &&& (self.width > 0 && self.height > 0 ==> 2 * (self.border as int) < self.width as int
            && 2 * (self.border as int) < self.height as int)
    }
}

/// The largest x coordinate of a series; 0 for an empty series.
pub open spec fn seq_max_x(s: Seq<DataPoint>) -> u32
    decreases s.len(),
{
    if s.len() == 0 {
        0u32
    } else {
        let m = seq_max_x(s.drop_last());
        if s.last().x > m {
            s.last().x
        } else {
            m
        }
    }
}

/// The largest y coordinate of a series; 0 for an empty series.
pub open spec fn seq_max_y(s: Seq<DataPoint>) -> u32
    decreases s.len(),
{
    if s.len() == 0 {
        0u32
    } else {
        let m = seq_max_y(s.drop_last());
        if s.last().y > m {
            s.last().y
        } else {
            m
        }
    }
}

/// Every x coordinate of a series is bounded by the series maximum.
pub proof fn lemma_seq_max_x_bound(s: Seq<DataPoint>, j: int)
    requires
        0 <= j < s.len(),
    ensures
        s[j].x <= seq_max_x(s),
    decreases s.len(),
{
    if j < s.len() - 1 {
        lemma_seq_max_x_bound(s.drop_last(), j);
    }
}

/// Every y coordinate of a series is bounded by the series maximum.
pub proof fn lemma_seq_max_y_bound(s: Seq<DataPoint>, j: int)
    requires
        0 <= j < s.len(),
    ensures
        s[j].y <= seq_max_y(s),
    decreases s.len(),
{
    if j < s.len() - 1 {
        lemma_seq_max_y_bound(s.drop_last(), j);
    }
}

/// A series is degenerate when it is empty or a maximum coordinate is
/// zero, so no data-to-pixel scale can be derived.
pub open spec fn degenerate(s: Seq<DataPoint>) -> bool {
    s.len() == 0 || seq_max_x(s) == 0 || seq_max_y(s) == 0
}

/// Horizontal data-to-pixel scale: floor of the drawable width over the
/// largest x coordinate.
pub open spec fn spec_x_scale(cfg: ChartConfig, max_x: u32) -> int {
    (cfg.width as int - 2 * cfg.border as int) / (max_x as int)
}

/// Vertical data-to-pixel scale: floor of the drawable height over the
/// largest y coordinate.
pub open spec fn spec_y_scale(cfg: ChartConfig, max_y: u32) -> int {
    (cfg.height as int - 2 * cfg.border as int) / (max_y as int)
}

/// Pixel column of a data point's marker center.
pub open spec fn spec_center_x(cfg: ChartConfig, max_x: u32, px: u32) -> int {
    spec_x_scale(cfg, max_x) * px as int + cfg.border as int
}

/// Pixel row of a data point's marker center. Data-space y grows
/// upward, pixel rows grow downward, so the row is flipped.
pub open spec fn spec_center_y(cfg: ChartConfig, max_y: u32, py: u32) -> int {
    cfg.height as int - spec_y_scale(cfg, max_y) * py as int - cfg.border as int
}

/// Whether pixel `(x, y)` lies in the square marker of point `p`: a
/// square of side `2 * marker_half` whose top-left corner is the center
/// shifted up and left by `marker_half`.
pub open spec fn in_marker(cfg: ChartConfig, max_x: u32, max_y: u32, p: DataPoint, x: int, y: int) -> bool {
    let cx = spec_center_x(cfg, max_x, p.x);
    let cy = spec_center_y(cfg, max_y, p.y);
    let half = cfg.marker_half as int;
    cx - half <= x < cx + half && cy - half <= y < cy + half
}

/// Whether pixel `(x, y)` lies in the marker of one of the first `n`
/// points of the series.
pub open spec fn covered_by_marker(cfg: ChartConfig, s: Seq<DataPoint>, n: int, x: int, y: int) -> bool {
    exists|j: int|
        0 <= j < n && in_marker(cfg, seq_max_x(s), seq_max_y(s), s[j], x, y)
}

/// Whether pixel `(x, y)` lies on an axis line: the vertical axis at
/// column B spanning rows [B, W-B), or the horizontal axis at row H-B
/// spanning columns [B, W-B). Both spans end at W-B: the vertical
/// line's length deliberately follows the canvas width, not its
/// height, a documented oddity of this chart style; `axes_in_bounds`
/// says when that span still fits the buffer.
pub open spec fn on_axis(cfg: ChartConfig, x: int, y: int) -> bool {
    let b = cfg.border as int;
    let span_end = cfg.width as int - b;
    (x == b && b <= y < span_end) || (y == cfg.height as int - b && b <= x < span_end)
}

/// The canvas under the markers: axis lines over the background fill.
pub open spec fn base_pixel(cfg: ChartConfig, x: int, y: int) -> Color {
    if on_axis(cfg, x, y) {
        cfg.axis_color
    } else {
        cfg.background
    }
}

/// The color a successful render gives pixel `(x, y)`: markers are
/// drawn last, over the axis lines, which are drawn over the
/// background.
pub open spec fn rendered_pixel(cfg: ChartConfig, s: Seq<DataPoint>, x: int, y: int) -> Color {
    if covered_by_marker(cfg, s, s.len() as int, x, y) {
        cfg.marker_color
    } else {
        base_pixel(cfg, x, y)
    }
}

/// Whether every axis pixel lies inside the canvas: the horizontal line
/// sits at row H-B, which exists only for B >= 1, and the vertical
/// span's width-derived W-B bound must not pass the bottom edge.
pub open spec fn axes_in_bounds(cfg: ChartConfig) -> bool {
    &&& 1 <= cfg.border
    &&& cfg.width as int - cfg.border as int <= cfg.height as int
}

/// Scaling a coordinate that is at most the maximum keeps the scaled
/// value inside the drawable span.
proof fn lemma_scale_mul_le(span: int, m: int, p: int)
    requires
        span >= 0,
        m > 0,
        0 <= p,
        p <= m,
    ensures
        0 <= (span / m) * p,
        (span / m) * p <= span,
{
    let q = span / m;
    lemma_fundamental_div_mod(span, m);
    lemma_div_pos_is_pos(span, m);
    lemma_mod_division_less_than_divisor(span, m);
    lemma_mul_nonnegative(q, p);
    lemma_mul_inequality(p, m, q);
}

/// The largest x coordinate over the series; 0 when it is empty.
pub fn max_x_of(series: &Vec<DataPoint>) -> (r: u32)
    ensures
        r == seq_max_x(series@),
{
    let mut m: u32 = 0;
    let mut i: usize = 0;
    while i < series.len()
        invariant
            i <= series@.len(),
            m == seq_max_x(series@.subrange(0, i as int)),
        decreases series@.len() - i,
    {
        proof {
            assert(series@.subrange(0, i + 1).drop_last() =~= series@.subrange(0, i as int));
            assert(series@.subrange(0, i + 1).last() == series@[i as int]);
        }
        if series[i].x > m {
            m = series[i].x;
        }
        i = i + 1;
    }
    proof {
        assert(series@.subrange(0, series@.len() as int) =~= series@);
    }
    m
}

/// The largest y coordinate over the series; 0 when it is empty.
pub fn max_y_of(series: &Vec<DataPoint>) -> (r: u32)
    ensures
        r == seq_max_y(series@),
{
    let mut m: u32 = 0;
    let mut i: usize = 0;
    while i < series.len()
        invariant
            i <= series@.len(),
            m == seq_max_y(series@.subrange(0, i as int)),
        decreases series@.len() - i,
    {
        proof {
            assert(series@.subrange(0, i + 1).drop_last() =~= series@.subrange(0, i as int));
            assert(series@.subrange(0, i + 1).last() == series@[i as int]);
        }
        if series[i].y > m {
            m = series[i].y;
        }
        i = i + 1;
    }
    proof {
        assert(series@.subrange(0, series@.len() as int) =~= series@);
    }
    m
}

/// The pixel center a data point maps to, given the series maxima: the
/// linear map with floor-divided scale factors, y flipped.
pub fn point_center(cfg: &ChartConfig, max_x: u32, max_y: u32, p: DataPoint) -> (r: (u32, u32))
    requires
        cfg.valid(),
        cfg.width > 0,
        cfg.height > 0,
        max_x > 0,
        max_y > 0,
        p.x <= max_x,
        p.y <= max_y,
    ensures
        r.0 as int == spec_center_x(*cfg, max_x, p.x),
        r.1 as int == spec_center_y(*cfg, max_y, p.y),
        cfg.border as int <= r.0 as int <= cfg.width as int - cfg.border as int,
        cfg.border as int <= r.1 as int <= cfg.height as int - cfg.border as int,
{
    let span_x = cfg.width - 2 * cfg.border;
    let span_y = cfg.height - 2 * cfg.border;
    let xs = span_x / max_x;
    let ys = span_y / max_y;
    proof {
        lemma_scale_mul_le(span_x as int, max_x as int, p.x as int);
        lemma_scale_mul_le(span_y as int, max_y as int, p.y as int);
    }
    let cx = xs * p.x + cfg.border;
    let cy = cfg.height - ys * p.y - cfg.border;
    (cx, cy)
}

/// Renders the axes-only canvas: background fill, then the two axis
/// lines inset by the border. This is the explicit mode for a chart
/// with no data; `render` starts from the same picture. Reports
/// `InvalidDimensions` for a zero-sized canvas and `OutOfBounds` when
/// an axis pixel would fall outside the buffer.
pub fn render_axes(cfg: &ChartConfig) -> (r: Result<Canvas, ChartError>)
    requires
        cfg.valid(),
    ensures
        (cfg.width == 0 || cfg.height == 0) ==> r == Err::<Canvas, ChartError>(ChartError::InvalidDimensions),
        cfg.width > 0 && cfg.height > 0 && !axes_in_bounds(*cfg) ==> r == Err::<Canvas, ChartError>(ChartError::OutOfBounds),
        cfg.width > 0 && cfg.height > 0 && axes_in_bounds(*cfg) ==> (r matches Ok(c) && c.wf()
            && c.spec_width() == cfg.width && c.spec_height() == cfg.height
            && forall|x: int, y: int| 0 <= x < cfg.width && 0 <= y < cfg.height
                ==> c.spec_pixel(x, y) == base_pixel(*cfg, x, y)),
{
    let w = cfg.width;
    let h = cfg.height;
    let mut canvas = match Canvas::new(w, h) {
        Ok(c) => c,
        Err(e) => {
            return Err(e);
        },
    };
    canvas.fill(cfg.background);
    if !(cfg.border >= 1 && w - cfg.border <= h) {
        return Err(ChartError::OutOfBounds);
    }
    // Horizontal axis: row H-B, columns [B, W-B).
    canvas.fill_rect(cfg.border, w - cfg.border, h - cfg.border, h - cfg.border + 1, cfg.axis_color);
    // Vertical axis: column B, rows [B, W-B); the width-derived bound
    // is the documented oddity that `on_axis` describes.
    canvas.fill_rect(cfg.border, cfg.border + 1, cfg.border, w - cfg.border, cfg.axis_color);
    proof {
        assert forall|x: int, y: int| 0 <= x < w && 0 <= y < h
            implies canvas.spec_pixel(x, y) == base_pixel(*cfg, x, y) by {}
    }
    Ok(canvas)
}

/// Renders the series onto a fresh canvas: background fill, axis
/// lines inset by the border, then one square marker per data point,
/// clipped silently at the canvas edges. Reports `InvalidDimensions`
/// for a zero-sized canvas, `OutOfBounds` when an axis pixel would
/// fall outside the buffer, and `DegenerateScale` when the series
/// admits no scale; no canvas is returned on any error.
pub fn render(series: &Vec<DataPoint>, cfg: &ChartConfig) -> (r: Result<Canvas, ChartError>)
    requires
        cfg.valid(),
    ensures
        (cfg.width == 0 || cfg.height == 0) ==> r == Err::<Canvas, ChartError>(ChartError::InvalidDimensions),
        cfg.width > 0 && cfg.height > 0 && !axes_in_bounds(*cfg) ==> r == Err::<Canvas, ChartError>(ChartError::OutOfBounds),
        cfg.width > 0 && cfg.height > 0 && axes_in_bounds(*cfg) && degenerate(series@) ==> r
            == Err::<Canvas, ChartError>(ChartError::DegenerateScale),
        cfg.width > 0 && cfg.height > 0 && axes_in_bounds(*cfg) && !degenerate(series@) ==> (r matches Ok(c)
            && c.wf() && c.spec_width() == cfg.width && c.spec_height() == cfg.height
            && forall|x: int, y: int| 0 <= x < cfg.width && 0 <= y < cfg.height
                ==> c.spec_pixel(x, y) == rendered_pixel(*cfg, series@, x, y)),
{
    let w = cfg.width;
    let h = cfg.height;
    let mut canvas = match render_axes(cfg) {
        Ok(c) => c,
        Err(e) => {
            return Err(e);
        },
    };
    let mx = max_x_of(series);
    let my = max_y_of(series);
    if series.len() == 0 || mx == 0 || my == 0 {
        return Err(ChartError::DegenerateScale);
    }
    let half = cfg.marker_half;
    let mut i: usize = 0;
    while i < series.len()
        invariant
            canvas.wf(),
            canvas.spec_width() == w,
            canvas.spec_height() == h,
            w == cfg.width,
            h == cfg.height,
            half == cfg.marker_half,
            cfg.valid(),
            w > 0,
            h > 0,
            axes_in_bounds(*cfg),
            mx == seq_max_x(series@),
            my == seq_max_y(series@),
            mx > 0,
            my > 0,
            i <= series@.len(),
            forall|x: int, y: int| 0 <= x < w && 0 <= y < h
                ==> canvas.spec_pixel(x, y) == (if covered_by_marker(*cfg, series@, i as int, x, y) {
                    cfg.marker_color
                } else {
                    base_pixel(*cfg, x, y)
                }),
        decreases series@.len() - i,
    {
        let p = series[i];
        proof {
            lemma_seq_max_x_bound(series@, i as int);
            lemma_seq_max_y_bound(series@, i as int);
        }
        let center = point_center(cfg, mx, my, p);
        let cx = center.0;
        let cy = center.1;
        let x0 = if cx >= half { cx - half } else { 0 };
        let x1 = if (cx as u64) + (half as u64) <= (w as u64) { cx + half } else { w };
        let y0 = if cy >= half { cy - half } else { 0 };
        let y1 = if (cy as u64) + (half as u64) <= (h as u64) { cy + half } else { h };
        canvas.fill_rect(x0, x1, y0, y1, cfg.marker_color);
        proof {
            let s = series@;
            assert forall|x: int, y: int| 0 <= x < w && 0 <= y < h
                implies canvas.spec_pixel(x, y) == (if covered_by_marker(*cfg, s, i + 1, x, y) {
                    cfg.marker_color
                } else {
                    base_pixel(*cfg, x, y)
                }) by {
                let in_rect = x0 as int <= x < x1 as int && y0 as int <= y < y1 as int;
                assert(in_rect <==> in_marker(*cfg, mx, my, s[i as int], x, y));
                if covered_by_marker(*cfg, s, i + 1, x, y) {
                    let j = choose|j: int|
                        0 <= j < i + 1 && in_marker(*cfg, mx, my, s[j], x, y);
                    if j < i {
                        assert(covered_by_marker(*cfg, s, i as int, x, y));
                    } else {
                        assert(in_rect);
                    }
                } else {
                    assert(!covered_by_marker(*cfg, s, i as int, x, y)) by {
                        if covered_by_marker(*cfg, s, i as int, x, y) {
                            let j = choose|j: int|
                                0 <= j < i && in_marker(*cfg, mx, my, s[j], x, y);
                            assert(0 <= j < i + 1 && in_marker(*cfg, mx, my, s[j], x, y));
                        }
                    }
                    assert(!in_rect);
                }
            }
        }
        i = i + 1;
    }
    Ok(canvas)
}

/// Law: marker clipping is silent and exact. Every in-bounds pixel of
/// any series point's marker square shows the marker color in the
/// rendered picture, wherever the square's center lies — in particular
/// when the square reaches past a canvas edge, its in-bounds portion is
/// still painted in full. The out-of-bounds portion addresses no pixel
/// at all, and `render`'s own contract shows that success never
/// depends on where the markers land.
pub proof fn lemma_marker_clipping(cfg: ChartConfig, s: Seq<DataPoint>, j: int, x: int, y: int)
    requires
        0 <= j < s.len(),
        in_marker(cfg, seq_max_x(s), seq_max_y(s), s[j], x, y),
    ensures
        rendered_pixel(cfg, s, x, y) == cfg.marker_color,
{
    assert(covered_by_marker(cfg, s, s.len() as int, x, y));
}

/// Law: on a successfully renderable chart that is at least as wide as
/// it is tall, every pixel of the vertical axis segment at column B,
/// rows [B, H-B), and of the horizontal axis segment at row H-B,
/// columns [B, W-B), shows the axis color unless a marker covers it.
pub proof fn lemma_axis_pixels(cfg: ChartConfig, s: Seq<DataPoint>, x: int, y: int)
    requires
        cfg.valid(),
        cfg.width > 0,
        cfg.height > 0,
        axes_in_bounds(cfg),
        cfg.height as int <= cfg.width as int,
        (x == cfg.border as int && cfg.border as int <= y < cfg.height as int - cfg.border as int)
            || (y == cfg.height as int - cfg.border as int && cfg.border as int <= x < cfg.width as int
            - cfg.border as int),
    ensures
        covered_by_marker(cfg, s, s.len() as int, x, y) || rendered_pixel(cfg, s, x, y)
            == cfg.axis_color,
{
    assert(on_axis(cfg, x, y));
}

} // verus!
