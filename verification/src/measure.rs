//! The timing and sweep harnesses.
//!
//! `time_render` wraps one strategy invocation between two monotonic
//! timestamps.  `measure_workload` sweeps one parameter — thread count or
//! rows per band — over an inclusive range, repeats each measurement to
//! damp scheduler noise, and averages the repeated trials into a
//! two-column parameter/time series.

use vstd::prelude::*;
use crate::customerror::CustomError;
use crate::fixed::{lemma_trunc_div_bounded, trunc_div};
use crate::geometry::{ImageBounds, Viewport, MAX_DIM};
use crate::mandel::image_spec;
use crate::partition::PartitionSpec;
use crate::strategies::{render_parallel, Strategy};
use crate::time::{Clock, MyTimestamp, NANOS_PER_MILLI};

verus! {

/// The elapsed wall-clock time of one complete render, in nanoseconds.
/// Negative only if the clock itself stepped backwards, which the
/// monotonic clock rules out.
#[derive(Clone, Copy, Debug, PartialEq, Eq, Structural)]
pub struct TrialResult {
    pub elapsed_nanos: i64,
}

impl TrialResult {
    /// The elapsed time in whole milliseconds, rounded toward zero.
    pub fn millis(&self) -> (r: i64)
        ensures
            r == trunc_div(self.elapsed_nanos as int, NANOS_PER_MILLI as int),
    {
        self.elapsed_nanos / NANOS_PER_MILLI
    }
}

/// A freshly allocated pixel buffer of `n` zeroed bytes.
pub fn zero_buffer(n: usize) -> (v: Vec<u8>)
    ensures
        v@.len() == n,
        forall|j: int| 0 <= j < n ==> v@[j] == 0u8,
{
    let mut v: Vec<u8> = Vec::new();
    let mut i: usize = 0;
    while i < n
        invariant
            i <= n,
            v@.len() == i,
            forall|j: int| 0 <= j < i ==> v@[j] == 0u8,
        decreases n - i,
    {
        v.push(0u8);
        i = i + 1;
    }
    v
}

/// Measure how long one complete render of `viewport` at `bounds` takes
/// under the given partition and strategy.
///
/// A fresh buffer is allocated, the strategy invocation alone is wrapped
/// between two monotonic timestamps, and the elapsed time is their single
/// signed difference.  On success the rendered buffer is returned with the
/// measurement; a clock failure is reported as `TimerError`, distinctly
/// from a failed render.
pub fn time_render(
    bounds: ImageBounds,
    viewport: Viewport,
    part: PartitionSpec,
    strategy: Strategy,
) -> (r: Result<(Vec<u8>, TrialResult), CustomError>)
    requires
        bounds.wf(),
        viewport.wf(),
        part.wf(),
        strategy.wf(),
    ensures
        match r {
            Ok(p) => p.0@ == image_spec(bounds, viewport),
            Err(e) => e == CustomError::TimerError || e == CustomError::ThreadPanic,
        },
{
    let area = bounds.pixel_count();
    let mut pixels = zero_buffer(area);
    let mut start = MyTimestamp::new();
    let mut end = MyTimestamp::new();
    if let Err(e) = start.gettime(Clock::ClockMonotonicRaw) {
        return Err(e);
    }
    if let Err(e) = render_parallel(&mut pixels, bounds, viewport, part, strategy) {
        return Err(e);
    }
    if let Err(e) = end.gettime(Clock::ClockMonotonicRaw) {
        return Err(e);
    }
    let nanos = start.elapsed_nanos(end);
    Ok((pixels, TrialResult { elapsed_nanos: nanos }))
}

/// Sum of a sequence of nanosecond samples.
pub open spec fn sum_nanos(s: Seq<i64>) -> int
    decreases s.len(),
{
    if s.len() == 0 {
        0
    } else {
        sum_nanos(s.drop_last()) + s.last()
    }
}

/// Largest number of samples one mean may average.
pub const MAX_SAMPLES: usize = 1_000_000;

/// The mean of the samples, rounded toward zero: their sum divided by
/// their number.
pub fn mean_of_samples(samples: &Vec<i64>) -> (m: i64)
    requires
        1 <= samples@.len() <= MAX_SAMPLES,
    ensures
        m == trunc_div(sum_nanos(samples@), samples@.len() as int),
{
    let n = samples.len();
    let mut total: i128 = 0;
    let mut i: usize = 0;
    while i < n
        invariant
            n == samples@.len(),
            1 <= n <= MAX_SAMPLES,
            i <= n,
            total == sum_nanos(samples@.subrange(0, i as int)),
            (i as int) * (i64::MIN as int) <= total <= (i as int) * (i64::MAX as int),
        decreases n - i,
    {
        proof {
            assert(samples@.subrange(0, i + 1).drop_last() =~= samples@.subrange(0, i as int));
            assert(samples@.subrange(0, i + 1).last() == samples@[i as int]);
            assert((i + 1) * (i64::MIN as int) == (i as int) * (i64::MIN as int) + i64::MIN)
                by (nonlinear_arith);
            assert((i + 1) * (i64::MAX as int) == (i as int) * (i64::MAX as int) + i64::MAX)
                by (nonlinear_arith);
        }
        total = total + (samples[i] as i128);
        i = i + 1;
    }
    proof {
        assert(samples@.subrange(0, n as int) =~= samples@);
        lemma_trunc_div_bounded(
            total as int,
            n as int,
            i64::MIN as int,
            i64::MAX as int,
        );
        assert((n as int) * (i64::MIN as int) <= (i as int) * (i64::MIN as int)
            && (i as int) * (i64::MAX as int) <= (n as int) * (i64::MAX as int))
            by (nonlinear_arith)
            requires i == n && n >= 1;
    }
    let m = total / (n as i128);
    m as i64
}

/// Which parameter a sweep varies: the number of worker threads (and with
/// it the number of bands), or the number of rows in each band.
#[derive(Clone, Copy, Debug, PartialEq, Eq, Structural)]
pub enum SweepMode {
    ThreadCount,
    RowsPerBand,
}

impl SweepMode {
    /// The partition a parameter value stands for under this mode.
    pub open spec fn part_spec(self, param: usize) -> PartitionSpec {
        match self {
            SweepMode::ThreadCount => PartitionSpec::ByCount(param),
            SweepMode::RowsPerBand => PartitionSpec::BySize(param),
        }
    }

    /// Turn a swept parameter value into a partition specification.
    pub fn part_for(self, param: usize) -> (p: PartitionSpec)
        ensures
            p == self.part_spec(param),
    {
        match self {
            SweepMode::ThreadCount => PartitionSpec::ByCount(param),
            SweepMode::RowsPerBand => PartitionSpec::BySize(param),
        }
    }
}

/// One point of a sweep: the parameter value and the mean elapsed time of
/// its trials in nanoseconds.
#[derive(Clone, Copy, Debug, PartialEq, Eq, Structural)]
pub struct SweepPoint {
    pub param: usize,
    pub mean_nanos: i64,
}

/// An ordered series of sweep points, parameter strictly increasing.
pub type SweepSeries = Vec<SweepPoint>;

/// Fold raw trial samples into a sweep series: sample `i * trials + t` is
/// trial `t` of the `i`-th parameter value, and each point's mean is the
/// mean of exactly its own `trials` samples.
pub fn sweep_series_from_samples(
    lo: usize,
    hi: usize,
    trials: usize,
    samples: &Vec<i64>,
) -> (series: SweepSeries)
    requires
        lo <= hi,
        1 <= trials,
        hi - lo + 1 <= MAX_SAMPLES,
        trials <= MAX_SAMPLES,
        samples@.len() == (hi - lo + 1) * trials,
    ensures
        series@.len() == hi - lo + 1,
        forall|i: int| 0 <= i < series@.len() ==> (#[trigger] series@[i]).param == lo + i,
        forall|i: int|
            0 <= i < series@.len() ==> (#[trigger] series@[i]).mean_nanos == trunc_div(
                sum_nanos(samples@.subrange(i * trials, (i + 1) * trials)),
                trials as int,
            ),
{
    let count = hi - lo + 1;
    let slen = samples.len();
    let mut series: SweepSeries = Vec::new();
    let mut i: usize = 0;
    while i < count
        invariant
            lo <= hi,
            count == hi - lo + 1,
            1 <= trials <= MAX_SAMPLES,
            count <= MAX_SAMPLES,
            slen == samples@.len(),
            samples@.len() == count * trials,
            i <= count,
            series@.len() == i,
            forall|q: int| 0 <= q < i ==> (#[trigger] series@[q]).param == lo + q,
            forall|q: int|
                0 <= q < i ==> (#[trigger] series@[q]).mean_nanos == trunc_div(
                    sum_nanos(samples@.subrange(q * trials, (q + 1) * trials)),
                    trials as int,
                ),
        decreases count - i,
    {
        proof {
            assert((i + 1) * trials == i * trials + trials) by (nonlinear_arith);
            assert((i + 1) * trials <= count * trials) by (nonlinear_arith)
                requires i + 1 <= count && trials >= 1;
            assert(i * trials >= 0) by (nonlinear_arith)
                requires i >= 0 && trials >= 1;
        }
        let base = i * trials;
        let mut block: Vec<i64> = Vec::new();
        let mut t: usize = 0;
        while t < trials
            invariant
                t <= trials,
                base == i * trials,
                slen == samples@.len(),
                base + trials <= samples@.len(),
                block@ =~= samples@.subrange(base as int, base + t),
            decreases trials - t,
        {
            proof {
                assert(samples@.subrange(base as int, base + t + 1) =~= samples@.subrange(
                    base as int,
                    base + t,
                ).push(samples@[base + t]));
            }
            let s = samples[base + t];
            block.push(s);
            t = t + 1;
        }
        let mean = mean_of_samples(&block);
        series.push(SweepPoint { param: lo + i, mean_nanos: mean });
        i = i + 1;
    }
    series
}

/// Sweep the chosen parameter from `lo` to `hi` inclusive, rendering
/// `trials` times at each value and averaging the elapsed times.
///
/// Trials run strictly sequentially — one render completes before the next
/// begins — so cross-trial interference is ruled out by construction.  The
/// resulting series holds one point per parameter value, in ascending
/// parameter order.  The first clock failure or worker panic aborts the
/// whole sweep with that error.
pub fn measure_workload(
    bounds: ImageBounds,
    viewport: Viewport,
    strategy: Strategy,
    mode: SweepMode,
    lo: usize,
    hi: usize,
    trials: usize,
) -> (r: Result<SweepSeries, CustomError>)
    requires
        bounds.wf(),
        viewport.wf(),
        strategy.wf(),
        1 <= lo <= hi <= MAX_DIM,
        1 <= trials <= 1000,
        hi - lo + 1 <= 10_000,
    ensures
        match r {
            Ok(series) => {
                &&& series@.len() == hi - lo + 1
                &&& forall|i: int|
                    0 <= i < series@.len() ==> (#[trigger] series@[i]).param == lo + i
            },
            Err(e) => e == CustomError::TimerError || e == CustomError::ThreadPanic,
        },
{
    let count = hi - lo + 1;
    let mut samples: Vec<i64> = Vec::new();
    let mut i: usize = 0;
    while i < count
        invariant
            bounds.wf(),
            viewport.wf(),
            strategy.wf(),
            1 <= lo <= hi <= MAX_DIM,
            1 <= trials <= 1000,
            count == hi - lo + 1,
            count <= 10_000,
            i <= count,
            samples@.len() == i * trials,
        decreases count - i,
    {
        let param = lo + i;
        let part = mode.part_for(param);
        proof {
            assert((i + 1) * trials == i * trials + trials) by (nonlinear_arith);
        }
        let mut t: usize = 0;
        while t < trials
            invariant
                bounds.wf(),
                viewport.wf(),
                strategy.wf(),
                part.wf(),
                1 <= trials <= 1000,
                t <= trials,
                i < count <= 10_000,
                samples@.len() == i * trials + t,
            decreases trials - t,
        {
            match time_render(bounds, viewport, part, strategy) {
                Ok(p) => {
                    samples.push(p.1.elapsed_nanos);
                },
                Err(e) => {
                    return Err(e);
                },
            }
            t = t + 1;
        }
        i = i + 1;
    }
    let series = sweep_series_from_samples(lo, hi, trials, &samples);
    Ok(series)
}

/// The decimal digits of `n`, most significant first, as ASCII bytes.
pub open spec fn dec_digits(n: nat) -> Seq<u8>
    decreases n,
{
    if n < 10 {
        seq![(48 + n) as u8]
    } else {
        dec_digits(n / 10) + seq![(48 + n % 10) as u8]
    }
}

/// The low `width` decimal digits of `n`, zero-padded at the front.
pub open spec fn fixed_digits(n: nat, width: nat) -> Seq<u8>
    decreases width,
{
    if width == 0 {
        Seq::empty()
    } else {
        fixed_digits(n / 10, (width - 1) as nat) + seq![(48 + n % 10) as u8]
    }
}

/// The text of a mean time in milliseconds: the whole milliseconds, a
/// dot, and the six-digit nanosecond fraction, with a leading minus sign
/// for a negative value.
pub open spec fn millis_text_nonneg(nanos: int) -> Seq<u8> {
    dec_digits((nanos / 1_000_000) as nat) + seq![46u8] + fixed_digits(
        (nanos % 1_000_000) as nat,
        6,
    )
}

pub open spec fn millis_text(nanos: int) -> Seq<u8> {
    if nanos < 0 {
        seq![45u8] + millis_text_nonneg(-nanos)
    } else {
        millis_text_nonneg(nanos)
    }
}

/// One line of the sweep output file: the parameter value, a comma, the
/// mean elapsed milliseconds, and a newline.
pub open spec fn sweep_line_spec(param: int, mean_nanos: int) -> Seq<u8> {
    dec_digits(param as nat) + seq![44u8] + millis_text(mean_nanos) + seq![10u8]
}

/// Append the decimal digits of `n` to `out`.
pub fn push_dec_digits(n: u64, out: &mut Vec<u8>)
    ensures
        final(out)@ == old(out)@ + dec_digits(n as nat),
    decreases n,
{
    if n < 10 {
        out.push(48 + (n as u8));
    } else {
        proof {
            assert(n / 10 < n) by (nonlinear_arith)
                requires n >= 10;
        }
        push_dec_digits(n / 10, out);
        out.push(48 + ((n % 10) as u8));
    }
}

/// Append the low `width` decimal digits of `n` to `out`, zero-padded.
pub fn push_fixed_digits(n: u64, width: u64, out: &mut Vec<u8>)
    ensures
        final(out)@ == old(out)@ + fixed_digits(n as nat, width as nat),
    decreases width,
{
    if width > 0 {
        push_fixed_digits(n / 10, width - 1, out);
        out.push(48 + ((n % 10) as u8));
    }
}

/// Format one line of the sweep output file, `"<parameter>,<mean_ms>\n"`,
/// as ASCII bytes: the mean is printed in milliseconds with a six-digit
/// fractional part.
pub fn format_sweep_line(param: usize, mean_nanos: i64) -> (line: Vec<u8>)
    ensures
        line@ == sweep_line_spec(param as int, mean_nanos as int),
{
    let mut line: Vec<u8> = Vec::new();
    push_dec_digits(param as u64, &mut line);
    line.push(44);
    let abs: u64 = if mean_nanos < 0 {
        line.push(45);
        (-(mean_nanos as i128)) as u64
    } else {
        mean_nanos as u64
    };
    push_dec_digits(abs / 1_000_000, &mut line);
    line.push(46);
    push_fixed_digits(abs % 1_000_000, 6, &mut line);
    line.push(10);
    proof {
        assert(line@ =~= sweep_line_spec(param as int, mean_nanos as int));
    }
    line
}

} // verus!
