use mandelbrot::geometry::{ComplexPoint, ImageBounds, Viewport};
use mandelbrot::mandel::render;
use mandelbrot::measure::{
    format_sweep_line, mean_of_samples, measure_workload, sweep_series_from_samples,
    time_render, zero_buffer, SweepMode, TrialResult,
};
use mandelbrot::partition::PartitionSpec;
use mandelbrot::strategies::Strategy;

fn default_viewport() -> Viewport {
    Viewport {
        upper_left: ComplexPoint {
            re: -160_000_000,
            im: 120_000_000,
        },
        lower_right: ComplexPoint {
            re: 60_000_000,
            im: -120_000_000,
        },
    }
}

#[test]
fn test_mean_of_samples_exact() {
    assert_eq!(mean_of_samples(&vec![1000, 2000, 3000]), 2000);
    assert_eq!(mean_of_samples(&vec![7]), 7);
    // Truncation is toward zero, also for a negative mean.
    assert_eq!(mean_of_samples(&vec![3, 4]), 3);
    assert_eq!(mean_of_samples(&vec![-3, -4]), -3);
}

#[test]
fn test_sweep_constant_mock_series() {
    // Sweeping parameters 4..=6 with two trials per point over a mock
    // render of constant elapsed time must give exactly three points,
    // each with mean exactly that time.
    let t: i64 = 123_456_789;
    let samples = vec![t; 6];
    let series = sweep_series_from_samples(4, 6, 2, &samples);
    assert_eq!(series.len(), 3);
    let lines: Vec<Vec<u8>> = series
        .iter()
        .map(|p| format_sweep_line(p.param, p.mean_nanos))
        .collect();
    assert_eq!(lines.len(), 3);
    for (i, point) in series.iter().enumerate() {
        assert_eq!(point.param, 4 + i);
        assert_eq!(point.mean_nanos, t);
    }
}

#[test]
fn test_sweep_series_block_means() {
    let samples = vec![10, 20, 100, 200, 1000, 2000];
    let series = sweep_series_from_samples(1, 3, 2, &samples);
    assert_eq!(series.len(), 3);
    assert_eq!((series[0].param, series[0].mean_nanos), (1, 15));
    assert_eq!((series[1].param, series[1].mean_nanos), (2, 150));
    assert_eq!((series[2].param, series[2].mean_nanos), (3, 1500));
}

#[test]
fn test_format_sweep_line_exact() {
    assert_eq!(format_sweep_line(4, 1_500_000), b"4,1.500000\n".to_vec());
    assert_eq!(format_sweep_line(10, 0), b"10,0.000000\n".to_vec());
    assert_eq!(format_sweep_line(7, -1_500_000), b"7,-1.500000\n".to_vec());
    assert_eq!(
        format_sweep_line(60, 12_345_678_901),
        b"60,12345.678901\n".to_vec()
    );
}

#[test]
fn test_trial_result_millis() {
    assert_eq!(
        TrialResult {
            elapsed_nanos: 1_234_567
        }
        .millis(),
        1
    );
    assert_eq!(
        TrialResult {
            elapsed_nanos: 2_000_000
        }
        .millis(),
        2
    );
}

#[test]
fn test_zero_buffer() {
    let v = zero_buffer(17);
    assert_eq!(v, vec![0u8; 17]);
}

#[test]
fn test_time_render_returns_image() {
    let bounds = ImageBounds {
        width: 16,
        height: 16,
    };
    let vp = default_viewport();
    let mut reference = vec![0u8; 16 * 16];
    render(&mut reference, bounds, vp.upper_left, vp.lower_right).unwrap();
    let (pixels, trial) = time_render(
        bounds,
        vp,
        PartitionSpec::ByCount(3),
        Strategy::WorkStealing,
    )
    .unwrap();
    assert_eq!(pixels, reference);
    assert!(trial.elapsed_nanos >= 0);
}

#[test]
fn test_measure_workload_series_shape() {
    let bounds = ImageBounds {
        width: 16,
        height: 16,
    };
    let vp = default_viewport();
    let series = measure_workload(
        bounds,
        vp,
        Strategy::Sequential,
        SweepMode::ThreadCount,
        1,
        3,
        2,
    )
    .unwrap();
    assert_eq!(series.len(), 3);
    for (i, point) in series.iter().enumerate() {
        assert_eq!(point.param, 1 + i);
        assert!(point.mean_nanos >= 0);
    }

    let series2 = measure_workload(
        bounds,
        vp,
        Strategy::ScopedPool(2),
        SweepMode::RowsPerBand,
        2,
        4,
        1,
    )
    .unwrap();
    assert_eq!(series2.len(), 3);
    assert_eq!(
        series2.iter().map(|p| p.param).collect::<Vec<_>>(),
        vec![2, 3, 4]
    );
}
