//! The execution strategies.
//!
//! Five interchangeable backends satisfy one contract: render every band of
//! the partition into one shared pixel buffer.  The per-band pixel work is
//! the verified `render_band`; what each backend adds is a scheduling
//! discipline, and the disjointness of the bands — proved by the
//! partitioner, not assumed by the workers — is what makes the unsynchronised
//! disciplines sound.  The dispatch into each outside scheduling crate is a
//! small trusted wrapper whose workers run only verified code.

use vstd::prelude::*;
use vstd::arithmetic::div_mod::{lemma_div_pos_is_pos, lemma_fundamental_div_mod};
use crate::customerror::CustomError;
use crate::geometry::{ImageBounds, Viewport, MAX_DIM};
use crate::mandel::{image_spec, render, render_band};
use crate::partition::{
    bands_uniform, ceil_div, lemma_ceil_div, make_bands, Band, PartitionSpec,
};
use rayon::iter::{IndexedParallelIterator, ParallelIterator};
use rayon::slice::ParallelSliceMut;

verus! {

/// The five scheduling disciplines.
///
/// `Sequential` renders on the calling thread.  `MutexForkJoin` spawns one
/// thread per band; the buffer sits behind a mutex and each worker locks it
/// only for its own writes.  `DisjointForkJoin` also spawns one thread per
/// band but splits the buffer at the type level into non-overlapping
/// mutable chunks, so no lock is needed.  `ScopedPool` reuses a bounded
/// pool of exactly the given number of worker threads over the same
/// disjoint chunks.  `WorkStealing` hands the chunks to a work-stealing
/// scheduler where whichever worker is idle claims the next band.
#[derive(Clone, Copy, Debug, PartialEq, Eq, Structural)]
pub enum Strategy {
    Sequential,
    MutexForkJoin,
    DisjointForkJoin,
    ScopedPool(u32),
    WorkStealing,
}

impl Strategy {
    pub open spec fn wf(self) -> bool {
        match self {
            Strategy::ScopedPool(threads) => threads >= 1,
            _ => true,
        }
    }
}

/// The bands describe exactly the chunks that splitting a buffer of
/// `total` bytes into pieces of `chunk_len` produces: band `k` starts at
/// byte `k * chunk_len` and every band but possibly the last is
/// `chunk_len` long.
pub open spec fn chunked_bands(bands: Seq<Band>, total: int, chunk_len: int) -> bool {
    &&& total >= 1
    &&& chunk_len >= 1
    &&& bands.len() == ceil_div(total, chunk_len)
    &&& forall|k: int| 0 <= k < bands.len() ==> (#[trigger] bands[k]).offset == k * chunk_len
    &&& forall|k: int|
        0 <= k < bands.len() ==> (#[trigger] bands[k]).len == if (k + 1) * chunk_len <= total {
            chunk_len
        } else {
            total - k * chunk_len
        }
}

/// What every fill wrapper requires of its arguments: a well-formed render
/// configuration, a buffer of exactly the image size, and bands that are
/// well-formed row ranges forming exactly the chunk decomposition of the
/// buffer.
pub open spec fn fill_pre(
    pixels: Seq<u8>,
    bounds: ImageBounds,
    viewport: Viewport,
    bands: Seq<Band>,
    chunk_len: int,
) -> bool {
    &&& bounds.wf()
    &&& viewport.wf()
    &&& pixels.len() == bounds.area()
    &&& forall|k: int| 0 <= k < bands.len() ==> (#[trigger] bands[k]).wf(bounds)
    &&& chunked_bands(bands, pixels.len() as int, chunk_len)
}

/// Every byte of every band holds its pixel of the image.
pub open spec fn bands_filled(
    newp: Seq<u8>,
    bounds: ImageBounds,
    viewport: Viewport,
    bands: Seq<Band>,
) -> bool {
    forall|k: int, j: int|
        0 <= k < bands.len() && (#[trigger] bands[k]).offset <= j < bands[k].offset
            + bands[k].len ==> #[trigger] newp[j] == image_spec(bounds, viewport)[j]
}

/// Copy `bytes` into `buf` starting at `offset`, leaving everything else
/// unchanged.  This is the only write a mutex-guarded worker performs while
/// it holds the lock.
pub fn write_band(buf: &mut Vec<u8>, offset: usize, bytes: &Vec<u8>)
    requires
        offset + bytes@.len() <= old(buf)@.len(),
    ensures
        final(buf)@.len() == old(buf)@.len(),
        forall|j: int| 0 <= j < bytes@.len() ==> final(buf)@[offset + j] == bytes@[j],
        forall|j: int|
            0 <= j < old(buf)@.len() && !(offset <= j < offset + bytes@.len())
                ==> final(buf)@[j] == old(buf)@[j],
{
    let total = buf.len();
    let mut i: usize = 0;
    while i < bytes.len()
        invariant
            offset + bytes@.len() <= buf@.len(),
            buf@.len() == old(buf)@.len(),
            total == buf@.len(),
            i <= bytes@.len(),
            forall|j: int| 0 <= j < i ==> buf@[offset + j] == bytes@[j],
            forall|j: int|
                0 <= j < old(buf)@.len() && !(offset <= j < offset + bytes@.len()) ==> buf@[j]
                    == old(buf)@[j],
        decreases bytes@.len() - i,
    {
        let b = bytes[i];
        buf.set(offset + i, b);
        i = i + 1;
    }
}

/// Mutex-guarded fork-join dispatch.
///
/// Relies on `crossbeam::scope` and `crossbeam_utils::thread::Scope::spawn`:
/// the scope blocks until every spawned thread has finished and returns
/// `Err` exactly when one of them panicked; and on `std::sync::Mutex` for
/// mutual exclusion of the workers' writes.  Each worker runs only the
/// verified `render_band` and `write_band`, whose contracts, together with
/// the disjointness of the bands, give the clauses below.
#[verifier::external_body]
fn fill_bands_mutex(
    pixels: &mut Vec<u8>,
    bounds: ImageBounds,
    viewport: Viewport,
    bands: &Vec<Band>,
    chunk_len: usize,
) -> (ok: bool)
    requires
        fill_pre(old(pixels)@, bounds, viewport, bands@, chunk_len as int),
    ensures
        final(pixels)@.len() == old(pixels)@.len(),
        ok ==> bands_filled(final(pixels)@, bounds, viewport, bands@),
{
    let guarded = std::sync::Mutex::new(pixels);
    let m = &guarded;
    let r = crossbeam::scope(|s| {
        for b in bands.iter().copied() {
            s.spawn(move |_| {
                let bytes = render_band(bounds, viewport, b.row_start, b.row_end);
                let mut g = m.lock().unwrap();
                write_band(&mut **g, b.offset, &bytes);
            });
        }
    });
    r.is_ok()
}

/// Disjoint-region fork-join dispatch.
///
/// Relies on `crossbeam::scope` (as above) and on
/// `<[u8]>::chunks_mut`, which splits the buffer into non-overlapping
/// mutable chunks of `chunk_len` bytes (the last may be shorter), and
/// `<[u8]>::copy_from_slice`.  One thread per chunk writes the bytes the
/// verified `render_band` computed for exactly that chunk's band; no lock
/// is involved because the chunks cannot alias.
#[verifier::external_body]
fn fill_bands_disjoint(
    pixels: &mut Vec<u8>,
    bounds: ImageBounds,
    viewport: Viewport,
    bands: &Vec<Band>,
    chunk_len: usize,
) -> (ok: bool)
    requires
        fill_pre(old(pixels)@, bounds, viewport, bands@, chunk_len as int),
    ensures
        final(pixels)@.len() == old(pixels)@.len(),
        ok ==> bands_filled(final(pixels)@, bounds, viewport, bands@),
{
    let r = crossbeam::scope(|s| {
        for (k, chunk) in pixels.chunks_mut(chunk_len).enumerate() {
            let b = bands[k];
            s.spawn(move |_| {
                chunk.copy_from_slice(&render_band(bounds, viewport, b.row_start, b.row_end));
            });
        }
    });
    r.is_ok()
}

/// Bounded worker-pool dispatch.
///
/// Relies on `scoped_threadpool::Pool::{new, scoped}` and
/// `Scope::execute`: the pool runs exactly `threads` reusable workers, the
/// scope blocks until every submitted task has completed before returning,
/// and a worker panic propagates out of `scoped` rather than being lost.
/// The chunks come from `<[u8]>::chunks_mut` as in the disjoint fork-join
/// dispatch, and each task runs only the verified `render_band`.
#[verifier::external_body]
fn fill_bands_pool(
    pixels: &mut Vec<u8>,
    bounds: ImageBounds,
    viewport: Viewport,
    bands: &Vec<Band>,
    chunk_len: usize,
    threads: u32,
)
    requires
        fill_pre(old(pixels)@, bounds, viewport, bands@, chunk_len as int),
        threads >= 1,
    ensures
        final(pixels)@.len() == old(pixels)@.len(),
        bands_filled(final(pixels)@, bounds, viewport, bands@),
{
    let mut pool = scoped_threadpool::Pool::new(threads);
    pool.scoped(|scope| {
        for (k, chunk) in pixels.chunks_mut(chunk_len).enumerate() {
            let b = bands[k];
            scope.execute(move || {
                chunk.copy_from_slice(&render_band(bounds, viewport, b.row_start, b.row_end));
            });
        }
    });
}

/// Work-stealing dispatch.
///
/// Relies on rayon's `par_chunks_mut`, `enumerate` and `for_each`: the
/// buffer is split at the type level into non-overlapping mutable chunks,
/// each chunk is processed exactly once by whichever pool worker claims it,
/// and `for_each` returns only after every chunk has been processed (a
/// worker panic aborts the whole batch by propagating).  Each worker runs
/// only the verified `render_band`.
#[verifier::external_body]
fn fill_bands_stealing(
    pixels: &mut Vec<u8>,
    bounds: ImageBounds,
    viewport: Viewport,
    bands: &Vec<Band>,
    chunk_len: usize,
)
    requires
        fill_pre(old(pixels)@, bounds, viewport, bands@, chunk_len as int),
    ensures
        final(pixels)@.len() == old(pixels)@.len(),
        bands_filled(final(pixels)@, bounds, viewport, bands@),
{
    pixels.par_chunks_mut(chunk_len).enumerate().for_each(|(k, chunk)| {
        let b = bands[k];
        chunk.copy_from_slice(&render_band(bounds, viewport, b.row_start, b.row_end));
    });
}

/// The ceiling quotient is determined by its sandwich: if
/// `(n - 1) * d < a <= n * d` then `ceil_div(a, d) == n`.
pub proof fn lemma_ceil_div_unique(a: int, d: int, n: int)
    requires
        a >= 1,
        d >= 1,
        (n - 1) * d < a <= n * d,
    ensures
        ceil_div(a, d) == n,
{
    lemma_ceil_div(a, d);
    let m = ceil_div(a, d);
    if m < n {
        assert((n - 1) * d >= m * d) by (nonlinear_arith)
            requires m <= n - 1 && d >= 1;
    }
    if m > n {
        assert((m - 1) * d >= n * d) by (nonlinear_arith)
            requires n <= m - 1 && d >= 1;
    }
}

/// A uniform row partition of the image is, at the byte level, exactly the
/// chunk decomposition of the row-major buffer with `rpb * width` bytes per
/// chunk.
pub proof fn lemma_uniform_bands_chunked(bands: Seq<Band>, bounds: ImageBounds, rpb: int)
    requires
        bounds.wf(),
        rpb >= 1,
        bands_uniform(bands, bounds, rpb),
    ensures
        chunked_bands(bands, bounds.area(), rpb * bounds.width),
{
    let w = bounds.width as int;
    let h = bounds.height as int;
    let cl = rpb * w;
    let total = bounds.area();
    let n = bands.len() as int;
    assert(total == h * w) by (nonlinear_arith)
        requires total == bounds.width * bounds.height && w == bounds.width && h == bounds.height;
    assert(cl >= 1) by (nonlinear_arith)
        requires cl == rpb * w && rpb >= 1 && w >= 1;
    assert(total >= 1) by (nonlinear_arith)
        requires h >= 1 && w >= 1 && total == h * w;
    lemma_ceil_div(h, rpb);
    assert((n - 1) * cl < total <= n * cl) by (nonlinear_arith)
        requires
            (n - 1) * rpb < h <= n * rpb,
            w >= 1,
            cl == rpb * w,
            total == h * w,
    ;
    lemma_ceil_div_unique(total, cl, n);
    assert forall|k: int| 0 <= k < bands.len() implies (#[trigger] bands[k]).offset == k * cl by {
        assert(bands[k].row_start == k * rpb);
        assert((k * rpb) * w == k * (rpb * w)) by (nonlinear_arith);
    }
    assert forall|k: int|
        0 <= k < bands.len() implies (#[trigger] bands[k]).len == (if (k + 1) * cl <= total {
        cl
    } else {
        total - k * cl
    }) by {
        assert(bands[k].row_start == k * rpb);
        if (k + 1) * rpb <= h {
            assert(bands[k].row_end == (k + 1) * rpb);
            assert((k + 1) * rpb - k * rpb == rpb) by (nonlinear_arith);
            assert(rpb * w == cl);
            assert((k + 1) * cl <= total) by (nonlinear_arith)
                requires (k + 1) * rpb <= h && w >= 1 && cl == rpb * w && total == h * w;
            assert(((k + 1) * rpb - k * rpb) * w == cl) by (nonlinear_arith)
                requires (k + 1) * rpb - k * rpb == rpb && cl == rpb * w;
        } else {
            assert(bands[k].row_end == h);
            assert((h - k * rpb) * w == total - k * cl) by (nonlinear_arith)
                requires total == h * w && cl == rpb * w;
            assert((k + 1) * cl > total) by (nonlinear_arith)
                requires (k + 1) * rpb > h && w >= 1 && cl == rpb * w && total == h * w;
        }
    }
}

/// Once every band's bytes hold their pixels, the whole buffer is the
/// image: the chunk decomposition covers every byte exactly once.
pub proof fn lemma_filled_is_image(
    newp: Seq<u8>,
    bounds: ImageBounds,
    viewport: Viewport,
    bands: Seq<Band>,
    chunk_len: int,
)
    requires
        bounds.wf(),
        viewport.wf(),
        newp.len() == bounds.area(),
        chunked_bands(bands, newp.len() as int, chunk_len),
        bands_filled(newp, bounds, viewport, bands),
    ensures
        newp == image_spec(bounds, viewport),
{
    let total = newp.len() as int;
    let n = bands.len() as int;
    lemma_ceil_div(total, chunk_len);
    assert forall|j: int| 0 <= j < total implies newp[j] == image_spec(bounds, viewport)[j] by {
        let k = j / chunk_len;
        lemma_fundamental_div_mod(j, chunk_len);
        lemma_div_pos_is_pos(j, chunk_len);
        assert(chunk_len * (j / chunk_len) == (j / chunk_len) * chunk_len) by (nonlinear_arith);
        assert(k * chunk_len <= j < (k + 1) * chunk_len) by (nonlinear_arith)
            requires j == k * chunk_len + j % chunk_len && 0 <= j % chunk_len < chunk_len;
        assert(k < n) by {
            if k >= n {
                assert(n * chunk_len <= k * chunk_len) by (nonlinear_arith)
                    requires n <= k && chunk_len >= 1;
            }
        }
        assert(bands[k].offset == k * chunk_len);
        if (k + 1) * chunk_len <= total {
            assert(bands[k].offset <= j < bands[k].offset + bands[k].len);
        } else {
            assert(bands[k].offset <= j < bands[k].offset + bands[k].len);
        }
        assert(newp[j] == image_spec(bounds, viewport)[j]);
    }
    assert(newp =~= image_spec(bounds, viewport));
}

/// Render the image of `viewport` at `bounds` into `pixels` with the given
/// partition and scheduling strategy.
///
/// All five strategies satisfy one contract: on success every pixel of the
/// buffer has been written with its image value — the same value whichever
/// strategy ran.  A buffer whose length is not `width * height` is rejected
/// with `SizeMismatch` before any work begins.  The two fork-join
/// strategies report `ThreadPanic` if a worker aborted abnormally; the
/// other strategies owe success.
pub fn render_parallel(
    pixels: &mut Vec<u8>,
    bounds: ImageBounds,
    viewport: Viewport,
    part: PartitionSpec,
    strategy: Strategy,
) -> (r: Result<(), CustomError>)
    requires
        bounds.wf(),
        viewport.wf(),
        part.wf(),
        strategy.wf(),
    ensures
        old(pixels)@.len() != bounds.area() ==> {
            &&& r == Err::<(), CustomError>(CustomError::SizeMismatch)
            &&& final(pixels)@ == old(pixels)@
        },
        old(pixels)@.len() == bounds.area() ==> match r {
            Ok(u) => final(pixels)@ == image_spec(bounds, viewport),
            Err(e) => {
                &&& e == CustomError::ThreadPanic
                &&& final(pixels)@.len() == old(pixels)@.len()
                &&& (strategy == Strategy::MutexForkJoin || strategy == Strategy::DisjointForkJoin)
            },
        },
{
    let area = bounds.pixel_count();
    if pixels.len() != area {
        return Err(CustomError::SizeMismatch);
    }
    match strategy {
        Strategy::Sequential => {
            let sr = render(pixels, bounds, viewport.upper_left, viewport.lower_right);
            proof {
                assert(sr is Ok);
            }
            Ok(())
        },
        _ => {
            let rpb = part.rows_per_band(bounds.height);
            let bands = make_bands(bounds, viewport, part);
            proof {
                    assert(rpb * bounds.width <= MAX_DIM * MAX_DIM) by (nonlinear_arith)
                    requires 1 <= rpb <= MAX_DIM && 0 < bounds.width <= MAX_DIM;
                lemma_uniform_bands_chunked(bands@, bounds, rpb as int);
            }
            let chunk_len = rpb * bounds.width;
            let ok = match strategy {
                Strategy::Sequential => false,
                Strategy::MutexForkJoin => {
                    fill_bands_mutex(pixels, bounds, viewport, &bands, chunk_len)
                },
                Strategy::DisjointForkJoin => {
                    fill_bands_disjoint(pixels, bounds, viewport, &bands, chunk_len)
                },
                Strategy::ScopedPool(threads) => {
                    fill_bands_pool(pixels, bounds, viewport, &bands, chunk_len, threads);
                    true
                },
                Strategy::WorkStealing => {
                    fill_bands_stealing(pixels, bounds, viewport, &bands, chunk_len);
                    true
                },
            };
            if ok {
                proof {
                    lemma_filled_is_image(
                        pixels@,
                        bounds,
                        viewport,
                        bands@,
                        chunk_len as int,
                    );
                }
                Ok(())
            } else {
                Err(CustomError::ThreadPanic)
            }
        },
    }
}

/// Law: the rendered image is strategy-independent.  The contract of
/// `render_parallel` pins every successful render, whatever the strategy
/// and the partition, to the one image `image_spec` describes, so two
/// successful renders of the same bounds and viewport are byte-for-byte
/// identical.
pub proof fn lemma_strategies_agree(
    bounds: ImageBounds,
    viewport: Viewport,
    out1: Seq<u8>,
    out2: Seq<u8>,
)
    requires
        out1 == image_spec(bounds, viewport),
        out2 == image_spec(bounds, viewport),
    ensures
        out1 == out2,
{
}

} // verus!
