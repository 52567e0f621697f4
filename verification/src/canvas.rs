use vstd::prelude::*;

use crate::color::Color;
use crate::error::ChartError;

verus! {

use vstd::pervasive::VecAdditionalExecFns;

/// An owned, fixed-size 2-D pixel buffer in row-major order: the pixel
/// at column `x`, row `y` sits at index `y * width + x`.
#[derive(Debug)]
pub struct Canvas {
    width: u32,
    height: u32,
    pixels: Vec<Color>,
}

/// The product of two 32-bit dimensions fits in 64 bits.
pub(crate) proof fn lemma_dims_product_fits(w: u32, h: u32)
    by (nonlinear_arith)
    requires
        w <= u32::MAX,
        h <= u32::MAX,
    ensures
        0 <= w as int * h as int <= u64::MAX as int,
{
}

/// Row-major index of an in-bounds coordinate stays inside the buffer.
proof fn lemma_row_major_in_bounds(x: int, y: int, w: int, h: int)
    by (nonlinear_arith)
    requires
        0 <= x < w,
        0 <= y < h,
    ensures
        0 <= y * w + x < w * h,
{
}

/// Row-major indexing is injective over in-bounds coordinates.
proof fn lemma_row_major_injective(x1: int, y1: int, x2: int, y2: int, w: int)
    by (nonlinear_arith)
    requires
        0 <= x1 < w,
        0 <= x2 < w,
        0 <= y1,
        0 <= y2,
        y1 * w + x1 == y2 * w + x2,
    ensures
        x1 == x2,
        y1 == y2,
{
}

impl Canvas {
    /// The canvas width in pixels.
    pub closed spec fn spec_width(&self) -> u32 {
        self.width
    }

    /// The canvas height in pixels.
    pub closed spec fn spec_height(&self) -> u32 {
        self.height
    }

    /// The pixel buffer in row-major order.
    pub closed spec fn spec_pixels(&self) -> Seq<Color> {
        self.pixels@
    }

    /// Well-formedness: both dimensions positive, and the buffer holds
    /// exactly one pixel per coordinate.
    pub closed spec fn wf(&self) -> bool {
        &&& self.width > 0
        &&& self.height > 0
        &&& self.pixels@.len() == self.width as int * self.height as int
    }

    /// The pixel at column `x`, row `y`.
    pub closed spec fn spec_pixel(&self, x: int, y: int) -> Color {
        self.pixels@[y * self.width as int + x]
    }

    /// What well-formedness guarantees about the shape: positive
    /// dimensions and a buffer of exactly one pixel per coordinate.
    pub proof fn lemma_wf(&self)
        requires
            self.wf(),
        ensures
            self.spec_width() > 0,
            self.spec_height() > 0,
            self.spec_pixels().len() == self.spec_width() as int * self.spec_height() as int,
    {
    }

    /// Allocates a `width` by `height` canvas with every pixel set to
    /// transparent black; rejects a zero-sized request.
    pub fn new(width: u32, height: u32) -> (r: Result<Canvas, ChartError>)
        ensures
            (width == 0 || height == 0) <==> r == Err::<Canvas, ChartError>(ChartError::InvalidDimensions),
            width > 0 && height > 0 ==> (r matches Ok(c) && c.wf() && c.spec_width() == width
                && c.spec_height() == height
                && forall|x: int, y: int| 0 <= x < width && 0 <= y < height
                    ==> c.spec_pixel(x, y) == Color::clear_spec()),
    {
        if width == 0 || height == 0 {
            return Err(ChartError::InvalidDimensions);
        }
        proof {
            lemma_dims_product_fits(width, height);
        }
        let total: u64 = width as u64 * height as u64;
        let mut pixels: Vec<Color> = Vec::new();
        let mut i: u64 = 0;
        while i < total
            invariant
                i <= total,
                pixels@.len() == i,
                forall|k: int| 0 <= k < i ==> pixels@[k] == Color::clear_spec(),
            decreases total - i,
        {
            pixels.push(Color::clear());
            i = i + 1;
        }
        let c = Canvas { width, height, pixels };
        proof {
            assert forall|x: int, y: int| 0 <= x < width && 0 <= y < height
                implies c.spec_pixel(x, y) == Color::clear_spec() by {
                lemma_row_major_in_bounds(x, y, width as int, height as int);
            }
        }
        Ok(c)
    }

    /// Rebuilds a canvas from its parts; the buffer must already match
    /// the dimensions.
    pub(crate) fn from_parts(width: u32, height: u32, pixels: Vec<Color>) -> (c: Canvas)
        requires
            width > 0,
            height > 0,
            pixels@.len() == width as int * height as int,
        ensures
            c.wf(),
            c.spec_width() == width,
            c.spec_height() == height,
            c.spec_pixels() == pixels@,
    {
        Canvas { width, height, pixels }
    }

    /// Read-only access to the raw pixel buffer.
    pub(crate) fn raw_pixels(&self) -> (r: &Vec<Color>)
        ensures
            r@ == self.spec_pixels(),
    {
        &self.pixels
    }

    /// The canvas width in pixels.
    pub fn width(&self) -> (r: u32)
        ensures
            r == self.spec_width(),
    {
        self.width
    }

    /// The canvas height in pixels.
    pub fn height(&self) -> (r: u32)
        ensures
            r == self.spec_height(),
    {
        self.height
    }

    /// Writes one pixel that is known to be in bounds.
    fn put(&mut self, x: u32, y: u32, color: Color)
        requires
            old(self).wf(),
            x < old(self).spec_width(),
            y < old(self).spec_height(),
        ensures
            final(self).wf(),
            final(self).spec_width() == old(self).spec_width(),
            final(self).spec_height() == old(self).spec_height(),
            forall|xi: int, yi: int|
                0 <= xi < old(self).spec_width() && 0 <= yi < old(self).spec_height()
                    ==> final(self).spec_pixel(xi, yi) == (if xi == x && yi == y {
                        color
                    } else {
                        old(self).spec_pixel(xi, yi)
                    }),
    {
        proof {
            lemma_row_major_in_bounds(x as int, y as int, self.width as int, self.height as int);
            assert(self.pixels@.len() <= usize::MAX) by {
                vstd::std_specs::vec::axiom_spec_len(&self.pixels);
            }
        }
        let idx: usize = (y as usize) * (self.width as usize) + (x as usize);
        self.pixels.set(idx, color);
        proof {
            let w = self.width as int;
            let h = self.height as int;
            assert forall|xi: int, yi: int| 0 <= xi < w && 0 <= yi < h
                implies self.spec_pixel(xi, yi) == (if xi == x && yi == y {
                    color
                } else {
                    old(self).spec_pixel(xi, yi)
                }) by {
                lemma_row_major_in_bounds(xi, yi, w, h);
                if yi * w + xi == y * w + x {
                    lemma_row_major_injective(xi, yi, x as int, y as int, w);
                }
            }
        }
    }

    /// Sets every pixel to `color`.
    pub fn fill(&mut self, color: Color)
        requires
            old(self).wf(),
        ensures
            final(self).wf(),
            final(self).spec_width() == old(self).spec_width(),
            final(self).spec_height() == old(self).spec_height(),
            forall|x: int, y: int|
                0 <= x < old(self).spec_width() && 0 <= y < old(self).spec_height()
                    ==> final(self).spec_pixel(x, y) == color,
    {
        let w = self.width;
        let h = self.height;
        self.fill_rect(0, w, 0, h, color);
    }

    /// Writes one pixel; reports `OutOfBounds`, and leaves the canvas
    /// untouched, when the coordinate lies outside the buffer.
    pub fn set_pixel(&mut self, x: u32, y: u32, color: Color) -> (r: Result<(), ChartError>)
        requires
            old(self).wf(),
        ensures
            final(self).wf(),
            final(self).spec_width() == old(self).spec_width(),
            final(self).spec_height() == old(self).spec_height(),
            x < old(self).spec_width() && y < old(self).spec_height()
                ==> r == Ok::<(), ChartError>(())
                    && forall|xi: int, yi: int|
                        0 <= xi < old(self).spec_width() && 0 <= yi < old(self).spec_height()
                            ==> final(self).spec_pixel(xi, yi) == (if xi == x && yi == y {
                                color
                            } else {
                                old(self).spec_pixel(xi, yi)
                            }),
            !(x < old(self).spec_width() && y < old(self).spec_height())
                ==> r == Err::<(), ChartError>(ChartError::OutOfBounds) && *final(self) == *old(self),
    {
        if x < self.width && y < self.height {
            self.put(x, y, color);
            Ok(())
        } else {
            Err(ChartError::OutOfBounds)
        }
    }

    /// Reads one pixel; `None` outside the buffer.
    pub fn get_pixel(&self, x: u32, y: u32) -> (r: Option<Color>)
        requires
            self.wf(),
        ensures
            x < self.spec_width() && y < self.spec_height()
                ==> r == Some(self.spec_pixel(x as int, y as int)),
            !(x < self.spec_width() && y < self.spec_height()) ==> r is None,
    {
        if x < self.width && y < self.height {
            proof {
                lemma_row_major_in_bounds(x as int, y as int, self.width as int, self.height as int);
                assert(self.pixels@.len() <= usize::MAX) by {
                    vstd::std_specs::vec::axiom_spec_len(&self.pixels);
                }
            }
            let idx: usize = (y as usize) * (self.width as usize) + (x as usize);
            Some(self.pixels[idx])
        } else {
            None
        }
    }

    /// Paints the axis-aligned rectangle of columns `[x0, x1)` and rows
    /// `[y0, y1)` with `color`, leaving every other pixel unchanged.
    pub fn fill_rect(&mut self, x0: u32, x1: u32, y0: u32, y1: u32, color: Color)
        requires
            old(self).wf(),
            x1 <= old(self).spec_width(),
            y1 <= old(self).spec_height(),
        ensures
            final(self).wf(),
            final(self).spec_width() == old(self).spec_width(),
            final(self).spec_height() == old(self).spec_height(),
            forall|x: int, y: int|
                0 <= x < old(self).spec_width() && 0 <= y < old(self).spec_height()
                    ==> final(self).spec_pixel(x, y) == (if x0 <= x < x1 && y0 <= y < y1 {
                        color
                    } else {
                        old(self).spec_pixel(x, y)
                    }),
    {
        let mut y = y0;
        while y < y1
            invariant
                self.wf(),
                y0 <= y,
                y <= y1 || y == y0,
                y1 <= self.spec_height(),
                x1 <= self.spec_width(),
                self.spec_width() == old(self).spec_width(),
                self.spec_height() == old(self).spec_height(),
                forall|xi: int, yi: int|
                    0 <= xi < self.spec_width() && 0 <= yi < self.spec_height()
                        ==> self.spec_pixel(xi, yi) == (if x0 <= xi < x1 && y0 <= yi < y {
                            color
                        } else {
                            old(self).spec_pixel(xi, yi)
                        }),
            decreases y1 - y,
        {
            let mut x = x0;
            while x < x1
                invariant
                    self.wf(),
                    x0 <= x,
                    x <= x1 || x == x0,
                    x1 <= self.spec_width(),
                    y0 <= y < y1,
                    y1 <= self.spec_height(),
                    self.spec_width() == old(self).spec_width(),
                    self.spec_height() == old(self).spec_height(),
                    forall|xi: int, yi: int|
                        0 <= xi < self.spec_width() && 0 <= yi < self.spec_height()
                            ==> self.spec_pixel(xi, yi) == (
                                if (x0 <= xi < x1 && y0 <= yi < y) || (x0 <= xi < x && yi == y) {
                                    color
                                } else {
                                    old(self).spec_pixel(xi, yi)
                                }),
                decreases x1 - x,
            {
                self.put(x, y, color);
                x = x + 1;
            }
            y = y + 1;
        }
    }
}

} // verus!
