//! The escape kernel and the renderers built on it.
//!
//! `escape_mandel_iterations` decides, with a bounded iteration count,
//! whether a point appears to belong to the Mandelbrot set; `render` fills a
//! whole pixel buffer sequentially and `render_band` produces the bytes of a
//! contiguous row range, the unit of work every parallel strategy hands to
//! its workers.

use vstd::prelude::*;
use vstd::arithmetic::div_mod::lemma_fundamental_div_mod_converse;
use crate::customerror::CustomError;
use crate::fixed::{trunc_div, SCALE};
use crate::fixed::lemma_trunc_div_bounds;
use crate::geometry::{corners_wf, point_spec, pixel_to_point, ComplexPoint, ImageBounds,
    Viewport, MAX_DIM};

verus! {

/// Iteration cap of the escape kernel.  256 matches the colour spectrum of
/// an 8-bit grayscale pixel: an escape at iteration `i` is drawn as
/// `255 - i`.
pub const MAX_ITERATIONS: u32 = 256;

/// One step of the iteration `z * z + c`, real part, in fixed point.
pub open spec fn step_re(zr: int, zi: int, cr: int) -> int {
    trunc_div(zr * zr - zi * zi, SCALE as int) + cr
}

/// One step of the iteration `z * z + c`, imaginary part, in fixed point.
pub open spec fn step_im(zr: int, zi: int, ci: int) -> int {
    trunc_div(2 * zr * zi, SCALE as int) + ci
}

/// Whether `z` has left the circle of radius two centered on the origin,
/// that is `|z|^2 > 4` in fixed point.
pub open spec fn escaped(zr: int, zi: int) -> bool {
    zr * zr + zi * zi > 4 * (SCALE as int) * (SCALE as int)
}

/// The number of further steps of `z = z * z + c` after which `z` first
/// escapes, starting from `z = (zr, zi)`, or `None` if it stays bounded for
/// `fuel` more steps.
pub open spec fn escape_count(zr: int, zi: int, cr: int, ci: int, fuel: nat) -> Option<int>
    decreases fuel,
{
    if fuel == 0 {
        None
    } else {
        let zr2 = step_re(zr, zi, cr);
        let zi2 = step_im(zr, zi, ci);
        if escaped(zr2, zi2) {
            Some(0int)
        } else {
            match escape_count(zr2, zi2, cr, ci, (fuel - 1) as nat) {
                None => None,
                Some(k) => Some(k + 1),
            }
        }
    }
}

/// The escape iteration of the point `c` under the capped kernel, or `None`
/// if `c` appears to be a member of the set.
pub open spec fn escape_spec(c: ComplexPoint) -> Option<int> {
    escape_count(0, 0, c.re as int, c.im as int, MAX_ITERATIONS as nat)
}

/// Shifts a step count by the number of steps already taken.
pub open spec fn opt_shift(o: Option<int>, k: int) -> Option<int> {
    match o {
        None => None,
        Some(v) => Some(v + k),
    }
}

/// Try to determine if `c` is in the Mandelbrot set, using at most
/// `MAX_ITERATIONS` iterations to decide.
///
/// If `c` is not a member, return `Some(i)`, where `i` is the number of
/// iterations it took for `c` to leave the circle of radius two centered on
/// the origin.  If we reached the iteration limit without being able to
/// prove that `c` is not a member, return `None`.
pub fn escape_mandel_iterations(c: ComplexPoint) -> (r: Option<u32>)
    requires
        c.in_range(),
    ensures
        match r {
            Some(i) => i < MAX_ITERATIONS && escape_spec(c) == Some(i as int),
            None => escape_spec(c) == None::<int>,
        },
{
    let mut zr: i64 = 0;
    let mut zi: i64 = 0;
    let mut i: u32 = 0;
    while i < MAX_ITERATIONS
        invariant
            c.in_range(),
            i <= MAX_ITERATIONS,
            !escaped(zr as int, zi as int),
            opt_shift(
                escape_count(
                    zr as int,
                    zi as int,
                    c.re as int,
                    c.im as int,
                    (MAX_ITERATIONS - i) as nat,
                ),
                i as int,
            ) == escape_spec(c),
        decreases MAX_ITERATIONS - i,
    {
        proof {
            let szr = zr as int;
            let szi = zi as int;
            let sc = SCALE as int;
            assert(szr * szr >= 0 && szi * szi >= 0) by (nonlinear_arith);
            assert(-2 * sc <= szr <= 2 * sc && -2 * sc <= szi <= 2 * sc) by (nonlinear_arith)
                requires
                    szr * szr + szi * szi <= 4 * sc * sc,
                    szr * szr >= 0,
                    szi * szi >= 0,
                    sc > 0,
            ;
            assert(-4 * sc * sc <= szr * szi <= 4 * sc * sc) by (nonlinear_arith)
                requires -2 * sc <= szr <= 2 * sc && -2 * sc <= szi <= 2 * sc && sc > 0;
            assert(2 * (szr * szi) == 2 * szr * szi) by (nonlinear_arith);
            lemma_trunc_div_bounds(szr * szr - szi * szi, sc);
            lemma_trunc_div_bounds(2 * szr * szi, sc);
        }
        let a = zr * zr;
        let b = zi * zi;
        let t = 2 * (zr * zi);
        let zr2 = (a - b) / SCALE + c.re;
        let zi2 = t / SCALE + c.im;
        proof {
            let s2 = zr2 as int;
            let s3 = zi2 as int;
            assert(s2 * s2 >= 0 && s3 * s3 >= 0) by (nonlinear_arith);
            assert(s2 * s2 <= 144 * (SCALE as int) * (SCALE as int)) by (nonlinear_arith)
                requires -12 * (SCALE as int) <= s2 <= 12 * (SCALE as int);
            assert(s3 * s3 <= 144 * (SCALE as int) * (SCALE as int)) by (nonlinear_arith)
                requires -12 * (SCALE as int) <= s3 <= 12 * (SCALE as int);
        }
        let n = zr2 * zr2 + zi2 * zi2;
        if n > 4 * SCALE * SCALE {
            return Some(i);
        }
        proof {
            let s2 = zr2 as int;
            let s3 = zi2 as int;
            assert(-2 * (SCALE as int) <= s2 <= 2 * (SCALE as int)) by (nonlinear_arith)
                requires
                    s2 * s2 + s3 * s3 <= 4 * (SCALE as int) * (SCALE as int)
                        && s3 * s3 >= 0 && SCALE as int > 0;
            assert(-2 * (SCALE as int) <= s3 <= 2 * (SCALE as int)) by (nonlinear_arith)
                requires
                    s2 * s2 + s3 * s3 <= 4 * (SCALE as int) * (SCALE as int)
                        && s2 * s2 >= 0 && SCALE as int > 0;
        }
        zr = zr2;
        zi = zi2;
        i = i + 1;
    }
    None
}

/// The grayscale intensity a pixel is drawn with: `0` for a presumed member
/// of the set, `255 - i` for a point that escapes at iteration `i`.
pub open spec fn shade_spec(o: Option<int>) -> u8 {
    match o {
        None => 0,
        Some(k) => (255 - k) as u8,
    }
}

/// The intensity of pixel `(col, row)` of an image of `viewport` rendered
/// at `bounds`.
pub open spec fn pixel_value(bounds: ImageBounds, viewport: Viewport, row: int, col: int) -> u8 {
    shade_spec(escape_spec(point_spec(bounds, col, row, viewport.upper_left, viewport.lower_right)))
}

/// The full rendered image as a row-major byte sequence: index
/// `row * width + col` holds `pixel_value(row, col)`.
pub open spec fn image_spec(bounds: ImageBounds, viewport: Viewport) -> Seq<u8> {
    Seq::new(
        bounds.area() as nat,
        |j: int| pixel_value(bounds, viewport, j / (bounds.width as int), j % (bounds.width as int)),
    )
}

/// Row-major indexing: the index `row * w + col` decomposes back into
/// exactly that row and column.
pub proof fn lemma_row_major_index(w: int, row: int, col: int)
    requires
        w >= 1,
        0 <= row,
        0 <= col < w,
    ensures
        (row * w + col) / w == row,
        (row * w + col) % w == col,
        row * w + col >= 0,
{
    lemma_fundamental_div_mod_converse(row * w + col, w, row, col);
    assert(row * w + col >= 0) by (nonlinear_arith)
        requires row >= 0 && col >= 0 && w >= 1;
}

/// Compute the intensity of one pixel.
pub fn compute_pixel(bounds: ImageBounds, viewport: Viewport, col: usize, row: usize) -> (v: u8)
    requires
        bounds.wf(),
        viewport.wf(),
        col < bounds.width,
        row < bounds.height,
    ensures
        v == pixel_value(bounds, viewport, row as int, col as int),
{
    let p = pixel_to_point(bounds, (col, row), viewport.upper_left, viewport.lower_right);
    match escape_mandel_iterations(p) {
        None => 0,
        Some(count) => 255 - (count as u8),
    }
}

/// Render a rectangle of the Mandelbrot set into a buffer of pixels.
///
/// `bounds` gives the width and height of the buffer `pixels`, which holds
/// one grayscale pixel per byte in row-major order.  `upper_left` and
/// `lower_right` specify the corners of the rendered region on the complex
/// plane.  If the buffer length does not match the bounds, nothing is
/// written and `SizeMismatch` is returned; that check happens before any
/// work begins.
pub fn render(
    pixels: &mut Vec<u8>,
    bounds: ImageBounds,
    upper_left: ComplexPoint,
    lower_right: ComplexPoint,
) -> (r: Result<(), CustomError>)
    requires
        bounds.wf(),
        corners_wf(upper_left, lower_right),
    ensures
        old(pixels)@.len() == bounds.area() ==> {
            &&& r is Ok
            &&& final(pixels)@ == image_spec(bounds, Viewport { upper_left, lower_right })
        },
        old(pixels)@.len() != bounds.area() ==> {
            &&& r == Err::<(), CustomError>(CustomError::SizeMismatch)
            &&& final(pixels)@ == old(pixels)@
        },
{
    let ghost vp = Viewport { upper_left, lower_right };
    let area = bounds.pixel_count();
    if pixels.len() != area {
        return Err(CustomError::SizeMismatch);
    }
    let viewport = Viewport { upper_left, lower_right };
    let w = bounds.width;
    let mut row: usize = 0;
    while row < bounds.height
        invariant
            bounds.wf(),
            viewport.wf(),
            viewport == vp,
            w == bounds.width,
            row <= bounds.height,
            pixels@.len() == bounds.area(),
            forall|j: int|
                0 <= j < row * bounds.width ==> pixels@[j] == image_spec(bounds, vp)[j],
        decreases bounds.height - row,
    {
        let mut col: usize = 0;
        while col < w
            invariant
                bounds.wf(),
                viewport.wf(),
                viewport == vp,
                w == bounds.width,
                row < bounds.height,
                col <= w,
                pixels@.len() == bounds.area(),
                forall|j: int|
                    0 <= j < row * bounds.width + col ==> pixels@[j] == image_spec(bounds, vp)[j],
            decreases w - col,
        {
            let v = compute_pixel(bounds, viewport, col, row);
            proof {
                lemma_row_major_index(w as int, row as int, col as int);
                assert(row * (w as int) + col + 1 <= bounds.height * (w as int))
                    by (nonlinear_arith)
                    requires 0 <= row < bounds.height && 0 <= col < w;
                    assert(bounds.height * (w as int) <= MAX_DIM * MAX_DIM) by (nonlinear_arith)
                    requires 0 < bounds.height <= MAX_DIM && 0 < w <= MAX_DIM;
                assert(bounds.height * (bounds.width as int) == bounds.area())
                    by (nonlinear_arith);
            }
            let idx = row * w + col;
            pixels.set(idx, v);
            col = col + 1;
        }
        proof {
            assert((row + 1) * (w as int) == row * (w as int) + w) by (nonlinear_arith);
        }
        row = row + 1;
    }
    proof {
        assert(row * (w as int) == bounds.height * (w as int)) by (nonlinear_arith)
            requires row == bounds.height;
        assert(bounds.height * (bounds.width as int) == bounds.area()) by (nonlinear_arith);
        assert(pixels@ =~= image_spec(bounds, vp));
    }
    Ok(())
}

/// Render the contiguous row range `[row_start, row_end)` of an image of
/// `viewport` at `bounds` and return its bytes.  The result is exactly the
/// slice `[row_start * width, row_end * width)` of the full image, so every
/// parallel strategy can hand one band to one worker and assemble the same
/// image the sequential renderer produces.
pub fn render_band(
    bounds: ImageBounds,
    viewport: Viewport,
    row_start: usize,
    row_end: usize,
) -> (v: Vec<u8>)
    requires
        bounds.wf(),
        viewport.wf(),
        row_start < row_end <= bounds.height,
    ensures
        v@.len() == (row_end - row_start) * bounds.width,
        forall|j: int|
            0 <= j < v@.len() ==> v@[j] == image_spec(bounds, viewport)[
                row_start * bounds.width + j
            ],
{
    let w = bounds.width;
    let mut v: Vec<u8> = Vec::new();
    let mut row: usize = row_start;
    proof {
        assert(row_end * (w as int) <= bounds.height * (w as int)) by (nonlinear_arith)
            requires 0 <= row_end <= bounds.height && w >= 0;
        assert(bounds.height * (bounds.width as int) == bounds.area()) by (nonlinear_arith);
    }
    while row < row_end
        invariant
            bounds.wf(),
            viewport.wf(),
            w == bounds.width,
            row_start <= row <= row_end,
            row_end <= bounds.height,
            v@.len() == (row - row_start) * bounds.width,
            forall|j: int|
                0 <= j < v@.len() ==> v@[j] == image_spec(bounds, viewport)[
                    row_start * bounds.width + j
                ],
        decreases row_end - row,
    {
        let mut col: usize = 0;
        while col < w
            invariant
                bounds.wf(),
                viewport.wf(),
                w == bounds.width,
                row_start <= row < row_end,
                row_end <= bounds.height,
                col <= w,
                v@.len() == (row - row_start) * bounds.width + col,
                forall|j: int|
                    0 <= j < v@.len() ==> v@[j] == image_spec(bounds, viewport)[
                        row_start * bounds.width + j
                    ],
            decreases w - col,
        {
            let p = compute_pixel(bounds, viewport, col, row);
            proof {
                let wi = w as int;
                lemma_row_major_index(wi, row as int, col as int);
                assert(row_start * wi + ((row - row_start) * wi + col) == row * wi + col)
                    by (nonlinear_arith);
                assert(row * wi + col < bounds.height * wi) by (nonlinear_arith)
                    requires 0 <= row < bounds.height && 0 <= col < wi;
                assert(bounds.height * (bounds.width as int) == bounds.area())
                    by (nonlinear_arith);
                assert((row - row_start) * wi + col + 1 <= (row_end - row_start) * wi)
                    by (nonlinear_arith)
                    requires row_start <= row < row_end && 0 <= col < wi;
            }
            v.push(p);
            col = col + 1;
        }
        proof {
            assert((row + 1 - row_start) * (w as int) == (row - row_start) * (w as int) + w)
                by (nonlinear_arith);
        }
        row = row + 1;
    }
    v
}

} // verus!
