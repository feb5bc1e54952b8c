//! The band partitioner.
//!
//! An image of `height` rows is divided into row-contiguous bands.  The
//! per-band row count is always rounded up, so the union of the bands covers
//! the full image with no gap; the final band may be shorter.  That the
//! bands are pairwise disjoint and cover every row exactly once is the
//! central invariant every execution strategy relies on, and it is proved
//! here once, as a property of the partitioner's output.

use vstd::prelude::*;
use vstd::arithmetic::div_mod::lemma_fundamental_div_mod;
use crate::geometry::{corners_wf, pixel_to_point, point_spec, ImageBounds, Viewport, MAX_DIM};

verus! {

/// How to split an image into row bands: either a desired number of bands
/// or a desired number of rows per band.
#[derive(Clone, Copy, Debug, PartialEq, Eq, Structural)]
pub enum PartitionSpec {
    ByCount(usize),
    BySize(usize),
}

impl PartitionSpec {
    pub open spec fn wf(self) -> bool {
        match self {
            PartitionSpec::ByCount(count) => count >= 1,
            PartitionSpec::BySize(rows) => 1 <= rows <= MAX_DIM,
        }
    }

    /// The number of rows per band this specification chooses for an image
    /// of `height` rows: for `ByCount` the count is divided into the height
    /// with rounding up, so that the bands always cover the whole image.
    pub open spec fn rows_per_band_spec(self, height: int) -> int {
        match self {
            PartitionSpec::ByCount(count) => ceil_div(height, count as int),
            PartitionSpec::BySize(rows) => rows as int,
        }
    }

    /// Compute the rows per band for an image of `height` rows.
    pub fn rows_per_band(self, height: usize) -> (r: usize)
        requires
            self.wf(),
            1 <= height <= MAX_DIM,
        ensures
            r == self.rows_per_band_spec(height as int),
            1 <= r <= MAX_DIM,
    {
        match self {
            PartitionSpec::ByCount(count) => {
                proof {
                    lemma_ceil_div(height as int, count as int);
                    lemma_ceil_div_le(height as int, count as int);
                }
                if height % count == 0 {
                    height / count
                } else {
                    height / count + 1
                }
            },
            PartitionSpec::BySize(rows) => rows,
        }
    }
}

/// `ceil(a / d)` for positive `d` and non-negative `a`.
pub open spec fn ceil_div(a: int, d: int) -> int {
    if a % d == 0 {
        a / d
    } else {
        a / d + 1
    }
}

/// The defining property of the ceiling division: `ceil_div(a, d)` is the
/// least integer `n` with `n * d >= a`.
pub proof fn lemma_ceil_div(a: int, d: int)
    requires
        a >= 1,
        d >= 1,
    ensures
        1 <= ceil_div(a, d),
        (ceil_div(a, d) - 1) * d < a <= ceil_div(a, d) * d,
{
    let q = a / d;
    let r = a % d;
    lemma_fundamental_div_mod(a, d);
    assert(q * d == d * q) by (nonlinear_arith);
    if r == 0 {
        assert((q - 1) * d == q * d - d) by (nonlinear_arith);
        assert(q >= 1) by (nonlinear_arith)
            requires q * d == a && a >= 1 && d >= 1;
    } else {
        assert((q + 1) * d == q * d + d) by (nonlinear_arith);
        assert(q >= 0) by (nonlinear_arith)
            requires q * d == a - r && a - r >= 0 && d >= 1;
    }
}

/// The ceiling quotient never exceeds the dividend.
pub proof fn lemma_ceil_div_le(a: int, d: int)
    requires
        a >= 1,
        d >= 1,
    ensures
        ceil_div(a, d) <= a,
{
    lemma_ceil_div(a, d);
    let n = ceil_div(a, d);
    assert(n - 1 <= (n - 1) * d) by (nonlinear_arith)
        requires n - 1 >= 0 && d >= 1;
}

/// A contiguous row range of the pixel buffer handed to one worker: rows
/// `[row_start, row_end)`, occupying bytes `[offset, offset + len)` of the
/// row-major buffer, together with the sub-viewport those rows cover on the
/// complex plane.
///
/// The sub-viewport describes the band; the workers themselves render by
/// absolute row against the full viewport, which is what makes the output
/// of every strategy byte-for-byte identical: a band-local interpolation
/// over the sub-viewport would agree only up to fixed-point rounding.
#[derive(Clone, Copy, Debug, PartialEq, Eq, Structural)]
pub struct Band {
    pub row_start: usize,
    pub row_end: usize,
    pub offset: usize,
    pub len: usize,
    pub sub: Viewport,
}

impl Band {
    /// A non-empty row range inside the image whose byte range is exactly
    /// the row-major image of its rows.
    pub open spec fn wf(self, bounds: ImageBounds) -> bool {
        &&& self.row_start < self.row_end <= bounds.height
        &&& self.offset == self.row_start * bounds.width
        &&& self.len == (self.row_end - self.row_start) * bounds.width
    }
}

/// Band `k` of a partition with `rpb` rows per band holds the rows
/// `[k * rpb, min((k + 1) * rpb, height))`.
pub open spec fn band_shape(b: Band, bounds: ImageBounds, rpb: int, k: int) -> bool {
    &&& b.wf(bounds)
    &&& b.row_start == k * rpb
    &&& b.row_end == if (k + 1) * rpb <= bounds.height {
        (k + 1) * rpb
    } else {
        bounds.height as int
    }
}

/// The sub-viewport of a band is the geometry mapper evaluated at its first
/// and one-past-last row.
pub open spec fn band_sub_ok(b: Band, bounds: ImageBounds, viewport: Viewport) -> bool {
    &&& b.sub.upper_left == point_spec(
        bounds,
        0,
        b.row_start as int,
        viewport.upper_left,
        viewport.lower_right,
    )
    &&& b.sub.lower_right == point_spec(
        bounds,
        bounds.width as int,
        b.row_end as int,
        viewport.upper_left,
        viewport.lower_right,
    )
}

/// The partition of an image of `bounds` into bands of `rpb` rows: there
/// are `ceil(height / rpb)` bands and band `k` has its prescribed shape.
pub open spec fn bands_uniform(bands: Seq<Band>, bounds: ImageBounds, rpb: int) -> bool {
    &&& bands.len() == ceil_div(bounds.height as int, rpb)
    &&& forall|k: int| 0 <= k < bands.len() ==> band_shape(#[trigger] bands[k], bounds, rpb, k)
}

/// Row `row` lies in band `b`.
pub open spec fn row_in_band(b: Band, row: int) -> bool {
    b.row_start <= row < b.row_end
}

/// Some band of the sequence holds row `row`.
pub open spec fn row_covered(bands: Seq<Band>, row: int) -> bool {
    exists|k: int| 0 <= k < bands.len() && row_in_band(#[trigger] bands[k], row)
}

/// Sum of the row counts of the bands, in order.
pub open spec fn sum_band_heights(bands: Seq<Band>) -> int
    decreases bands.len(),
{
    if bands.len() == 0 {
        0
    } else {
        sum_band_heights(bands.drop_last()) + (bands.last().row_end - bands.last().row_start)
    }
}

/// Divide the image into ordered row-contiguous bands.
///
/// The bands cover rows `[0, height)` exactly once, in row order; every
/// band but the last holds `rows_per_band` rows and the last holds the
/// remainder, which is never empty.  Each band carries its byte range in
/// the row-major buffer and its sub-viewport.
pub fn make_bands(bounds: ImageBounds, viewport: Viewport, part: PartitionSpec) -> (bands: Vec<
    Band,
>)
    requires
        bounds.wf(),
        viewport.wf(),
        part.wf(),
    ensures
        bands@.len() >= 1,
        bands_uniform(bands@, bounds, part.rows_per_band_spec(bounds.height as int)),
        forall|k: int|
            0 <= k < bands@.len() ==> band_sub_ok(#[trigger] bands@[k], bounds, viewport),
{
    let h = bounds.height;
    let w = bounds.width;
    let rpb = part.rows_per_band(h);
    let n: usize = if h % rpb == 0 {
        h / rpb
    } else {
        h / rpb + 1
    };
    proof {
        lemma_ceil_div(h as int, rpb as int);
    }
    let mut bands: Vec<Band> = Vec::new();
    let mut k: usize = 0;
    while k < n
        invariant
            bounds.wf(),
            viewport.wf(),
            h == bounds.height,
            w == bounds.width,
            1 <= rpb <= MAX_DIM,
            n == ceil_div(h as int, rpb as int),
            1 <= n,
            (n - 1) * rpb < h <= n * rpb,
            k <= n,
            bands@.len() == k,
            forall|j: int|
                0 <= j < k ==> band_shape(#[trigger] bands@[j], bounds, rpb as int, j),
            forall|j: int| 0 <= j < k ==> band_sub_ok(#[trigger] bands@[j], bounds, viewport),
        decreases n - k,
    {
        proof {
            assert(k * rpb <= (n - 1) * rpb) by (nonlinear_arith)
                requires 0 <= k <= n - 1 && rpb >= 1;
            assert((k + 1) * rpb == k * rpb + rpb) by (nonlinear_arith);
        }
        let row_start: usize = k * rpb;
        let reach: usize = row_start + rpb;
        let row_end: usize = if reach <= h {
            reach
        } else {
            h
        };
        proof {
            assert(row_start * w <= MAX_DIM * MAX_DIM && (row_end - row_start) * w <= MAX_DIM
                * MAX_DIM) by (nonlinear_arith)
                requires
                    0 <= row_start <= MAX_DIM,
                    0 <= row_end - row_start <= MAX_DIM,
                    0 < w <= MAX_DIM,
            ;
        }
        let offset: usize = row_start * w;
        let len: usize = (row_end - row_start) * w;
        let sub_upper_left = pixel_to_point(
            bounds,
            (0, row_start),
            viewport.upper_left,
            viewport.lower_right,
        );
        let sub_lower_right = pixel_to_point(
            bounds,
            (w, row_end),
            viewport.upper_left,
            viewport.lower_right,
        );
        let band = Band {
            row_start,
            row_end,
            offset,
            len,
            sub: Viewport { upper_left: sub_upper_left, lower_right: sub_lower_right },
        };
        bands.push(band);
        k = k + 1;
    }
    bands
}

/// Law: for every image height and every partition specification, the
/// partitioner's bands, taken in order, start at row `0`, are contiguous
/// (each band begins where the previous one ends), end at row `height`,
/// cover every row of the image, never assign one row to two bands, and
/// their heights sum to exactly the image height.
pub proof fn lemma_bands_partition_rows(bands: Seq<Band>, bounds: ImageBounds, rpb: int)
    requires
        bounds.wf(),
        rpb >= 1,
        bands_uniform(bands, bounds, rpb),
    ensures
        bands.len() >= 1,
        bands[0].row_start == 0,
        bands[bands.len() - 1].row_end == bounds.height,
        forall|k: int|
            0 <= k < bands.len() - 1 ==> #[trigger] bands[k].row_end == bands[k + 1].row_start,
        forall|row: int| 0 <= row < bounds.height ==> #[trigger] row_covered(bands, row),
        forall|k1: int, k2: int|
            0 <= k1 < k2 < bands.len() ==> #[trigger] bands[k1].row_end <= #[trigger] bands[
                k2
            ].row_start,
        sum_band_heights(bands) == bounds.height,
{
    let h = bounds.height as int;
    let n = bands.len() as int;
    lemma_ceil_div(h, rpb);
    assert(n >= 1);
    assert(band_shape(bands[0], bounds, rpb, 0));
    assert(0 * rpb == 0) by (nonlinear_arith);
    assert(band_shape(bands[n - 1], bounds, rpb, n - 1));
    assert(bands[n - 1].row_end == h);
    assert forall|k: int| 0 <= k < n - 1 implies #[trigger] bands[k].row_end == bands[
        k + 1
    ].row_start by {
        assert(band_shape(bands[k], bounds, rpb, k));
        assert(band_shape(bands[k + 1], bounds, rpb, k + 1));
        assert((k + 1) * rpb <= (n - 1) * rpb) by (nonlinear_arith)
            requires k + 1 <= n - 1 && rpb >= 1;
    }
    assert forall|row: int| 0 <= row < h implies #[trigger] row_covered(bands, row) by {
        let k = row / rpb;
        lemma_fundamental_div_mod(row, rpb);
        assert(rpb * (row / rpb) == (row / rpb) * rpb) by (nonlinear_arith);
        assert(k * rpb <= row < (k + 1) * rpb) by (nonlinear_arith)
            requires row == k * rpb + row % rpb && 0 <= row % rpb < rpb;
        assert(k < n) by {
            if k >= n {
                assert(n * rpb <= k * rpb) by (nonlinear_arith)
                    requires n <= k && rpb >= 1;
            }
        }
        assert(k >= 0) by {
            if k < 0 {
                assert(k * rpb + rpb <= 0) by (nonlinear_arith)
                    requires k <= -1 && rpb >= 1;
            }
        }
        assert(band_shape(bands[k], bounds, rpb, k));
        assert(row_in_band(bands[k], row));
    }
    assert forall|k1: int, k2: int| 0 <= k1 < k2 < bands.len() implies #[trigger] bands[
        k1
    ].row_end <= #[trigger] bands[k2].row_start by {
        assert(band_shape(bands[k1], bounds, rpb, k1));
        assert(band_shape(bands[k2], bounds, rpb, k2));
        assert((k1 + 1) * rpb <= k2 * rpb) by (nonlinear_arith)
            requires k1 + 1 <= k2 && rpb >= 1;
    }
    lemma_sum_all(bands, bounds, rpb);
}

/// The heights of the first `m` bands of a uniform partition sum to the
/// end row of band `m - 1`.
proof fn lemma_sum_prefix(bands: Seq<Band>, bounds: ImageBounds, rpb: int, m: int)
    requires
        bounds.wf(),
        rpb >= 1,
        bands_uniform(bands, bounds, rpb),
        0 <= m <= bands.len(),
    ensures
        sum_band_heights(bands.subrange(0, m)) == if m == 0 {
            0
        } else {
            bands[m - 1].row_end
        },
    decreases m,
{
    if m == 0 {
        assert(bands.subrange(0, 0).len() == 0);
    } else {
        let prefix = bands.subrange(0, m);
        assert(prefix.drop_last() =~= bands.subrange(0, m - 1));
        assert(prefix.last() == bands[m - 1]);
        lemma_sum_prefix(bands, bounds, rpb, m - 1);
        assert(band_shape(bands[m - 1], bounds, rpb, m - 1));
        if m - 1 >= 1 {
            assert(band_shape(bands[m - 2], bounds, rpb, m - 2));
            lemma_ceil_div(bounds.height as int, rpb);
            assert((m - 1) * rpb <= (bands.len() - 1) * rpb) by (nonlinear_arith)
                requires m - 1 <= bands.len() - 1 && rpb >= 1;
            assert((m - 1) * rpb == (m - 2) * rpb + rpb) by (nonlinear_arith);
        } else {
            assert(0 * rpb == 0) by (nonlinear_arith);
        }
    }
}

/// The heights of all bands of a uniform partition sum to the image height
/// (helper corollary of `lemma_sum_prefix` used by the partition law).
proof fn lemma_sum_all(bands: Seq<Band>, bounds: ImageBounds, rpb: int)
    requires
        bounds.wf(),
        rpb >= 1,
        bands_uniform(bands, bounds, rpb),
    ensures
        sum_band_heights(bands) == bounds.height,
{
    lemma_ceil_div(bounds.height as int, rpb);
    lemma_sum_prefix(bands, bounds, rpb, bands.len() as int);
    assert(bands.subrange(0, bands.len() as int) =~= bands);
    assert(band_shape(bands[bands.len() - 1], bounds, rpb, bands.len() - 1));
}

} // verus!
