//! The geometry mapper: pixel coordinates to points on the complex plane.

use vstd::prelude::*;
use crate::fixed::{lemma_trunc_div_bounds, lemma_trunc_div_multiple, lemma_trunc_div_ordered,
    trunc_div};

verus! {

/// Largest width or height of an image, in pixels.
pub const MAX_DIM: usize = 40_000;

/// Largest magnitude of a viewport coordinate: 4.0 on the complex plane.
/// Every point of interest of the escape-time set lies well inside it, and
/// the bound keeps all kernel arithmetic inside `i64`.
pub const MAX_COORD: i64 = 400_000_000;

/// A point on the complex plane in fixed-point representation: the complex
/// number `(re / SCALE) + (im / SCALE) * i`.
#[derive(Clone, Copy, Debug, PartialEq, Eq, Structural)]
pub struct ComplexPoint {
    pub re: i64,
    pub im: i64,
}

impl ComplexPoint {
    /// Both coordinates lie within the supported square of the plane.
    pub open spec fn in_range(self) -> bool {
        -MAX_COORD <= self.re <= MAX_COORD && -MAX_COORD <= self.im <= MAX_COORD
    }
}

/// Width and height of an image in pixels, both positive.
#[derive(Clone, Copy, Debug, PartialEq, Eq, Structural)]
pub struct ImageBounds {
    pub width: usize,
    pub height: usize,
}

impl ImageBounds {
    pub open spec fn wf(self) -> bool {
        0 < self.width <= MAX_DIM && 0 < self.height <= MAX_DIM
    }

    /// Number of pixels of the image.
    pub open spec fn area(self) -> int {
        self.width * self.height
    }

    /// Number of pixels of the image, as a buffer length.
    pub fn pixel_count(&self) -> (n: usize)
        requires
            self.wf(),
        ensures
            n == self.area(),
    {
        proof {
            assert(self.width * self.height <= MAX_DIM * MAX_DIM) by (nonlinear_arith)
                requires 0 < self.width <= MAX_DIM && 0 < self.height <= MAX_DIM;
        }
        self.width * self.height
    }
}

/// The corners of a rendered region: `upper_left` is above and to the left
/// of `lower_right` on the complex plane.
pub open spec fn corners_wf(upper_left: ComplexPoint, lower_right: ComplexPoint) -> bool {
    &&& upper_left.in_range()
    &&& lower_right.in_range()
    &&& upper_left.re < lower_right.re
    &&& upper_left.im > lower_right.im
}

/// A rectangular region of the complex plane to render.
#[derive(Clone, Copy, Debug, PartialEq, Eq, Structural)]
pub struct Viewport {
    pub upper_left: ComplexPoint,
    pub lower_right: ComplexPoint,
}

impl Viewport {
    pub open spec fn wf(self) -> bool {
        corners_wf(self.upper_left, self.lower_right)
    }
}

/// The point of the complex plane that pixel `(col, row)` maps to: linear
/// interpolation between the two corners, exact in fixed-point arithmetic.
/// The imaginary part is subtracted because pixel rows grow downward while
/// the imaginary axis grows upward.
pub open spec fn point_spec(
    bounds: ImageBounds,
    col: int,
    row: int,
    upper_left: ComplexPoint,
    lower_right: ComplexPoint,
) -> ComplexPoint {
    ComplexPoint {
        re: (upper_left.re + trunc_div(
            col * (lower_right.re - upper_left.re),
            bounds.width as int,
        )) as i64,
        im: (upper_left.im - trunc_div(
            row * (upper_left.im - lower_right.im),
            bounds.height as int,
        )) as i64,
    }
}

/// For pixels inside the image, the mapped point stays inside the viewport
/// rectangle (and hence inside the supported coordinate range).
pub proof fn lemma_point_spec_in_viewport(
    bounds: ImageBounds,
    col: int,
    row: int,
    upper_left: ComplexPoint,
    lower_right: ComplexPoint,
)
    requires
        bounds.wf(),
        corners_wf(upper_left, lower_right),
        0 <= col <= bounds.width,
        0 <= row <= bounds.height,
    ensures
        upper_left.re <= point_spec(bounds, col, row, upper_left, lower_right).re
            <= lower_right.re,
        lower_right.im <= point_spec(bounds, col, row, upper_left, lower_right).im
            <= upper_left.im,
        point_spec(bounds, col, row, upper_left, lower_right).in_range(),
{
    let w = bounds.width as int;
    let h = bounds.height as int;
    let dre = lower_right.re - upper_left.re;
    let dim = upper_left.im - lower_right.im;
    assert(0 <= col * dre <= w * dre) by (nonlinear_arith)
        requires 0 <= col <= w && dre >= 0;
    lemma_trunc_div_bounds(col * dre, w);
    lemma_trunc_div_ordered(col * dre, w * dre, w);
    lemma_trunc_div_multiple(dre, w);
    assert(w * dre == dre * w) by (nonlinear_arith);
    assert(0 <= row * dim <= h * dim) by (nonlinear_arith)
        requires 0 <= row <= h && dim >= 0;
    lemma_trunc_div_bounds(row * dim, h);
    lemma_trunc_div_ordered(row * dim, h * dim, h);
    lemma_trunc_div_multiple(dim, h);
    assert(h * dim == dim * h) by (nonlinear_arith);
}

/// Given the row and column of a pixel in the output image, return the
/// corresponding point on the complex plane.
///
/// `bounds` gives the width and height of the image in pixels; `pixel` is a
/// `(column, row)` pair; `upper_left` and `lower_right` are the corners of
/// the rendered region.
pub fn pixel_to_point(
    bounds: ImageBounds,
    pixel: (usize, usize),
    upper_left: ComplexPoint,
    lower_right: ComplexPoint,
) -> (r: ComplexPoint)
    requires
        bounds.wf(),
        corners_wf(upper_left, lower_right),
        pixel.0 <= bounds.width,
        pixel.1 <= bounds.height,
    ensures
        r == point_spec(bounds, pixel.0 as int, pixel.1 as int, upper_left, lower_right),
        r.in_range(),
{
    let w = bounds.width as i64;
    let h = bounds.height as i64;
    let col = pixel.0 as i64;
    let row = pixel.1 as i64;
    let dre = lower_right.re - upper_left.re;
    let dim = upper_left.im - lower_right.im;
    proof {
        assert(0 <= col * dre <= MAX_DIM * (2 * MAX_COORD)) by (nonlinear_arith)
            requires 0 <= col <= MAX_DIM && 0 <= dre <= 2 * MAX_COORD;
        assert(0 <= row * dim <= MAX_DIM * (2 * MAX_COORD)) by (nonlinear_arith)
            requires 0 <= row <= MAX_DIM && 0 <= dim <= 2 * MAX_COORD;
        lemma_point_spec_in_viewport(
            bounds,
            col as int,
            row as int,
            upper_left,
            lower_right,
        );
    }
    let re = upper_left.re + (col * dre) / w;
    let im = upper_left.im - (row * dim) / h;
    ComplexPoint { re, im }
}

/// Law: the mapping is exact at the two boundary pixels.  Pixel `(0, 0)`
/// maps to `upper_left` and pixel `(width, height)` maps to `lower_right`.
pub proof fn lemma_pixel_to_point_corners(
    bounds: ImageBounds,
    upper_left: ComplexPoint,
    lower_right: ComplexPoint,
)
    requires
        bounds.wf(),
        corners_wf(upper_left, lower_right),
    ensures
        point_spec(bounds, 0, 0, upper_left, lower_right) == upper_left,
        point_spec(bounds, bounds.width as int, bounds.height as int, upper_left, lower_right)
            == lower_right,
{
    let w = bounds.width as int;
    let h = bounds.height as int;
    let dre = lower_right.re - upper_left.re;
    let dim = upper_left.im - lower_right.im;
    lemma_trunc_div_bounds(0, w);
    lemma_trunc_div_bounds(0, h);
    lemma_trunc_div_multiple(dre, w);
    assert(w * dre == dre * w) by (nonlinear_arith);
    lemma_trunc_div_multiple(dim, h);
    assert(h * dim == dim * h) by (nonlinear_arith);
}

} // verus!
