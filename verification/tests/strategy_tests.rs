use mandelbrot::customerror::CustomError;
use mandelbrot::geometry::{ComplexPoint, ImageBounds, Viewport};
use mandelbrot::mandel::{render, render_band};
use mandelbrot::partition::{make_bands, PartitionSpec};
use mandelbrot::strategies::{render_parallel, write_band, Strategy};

fn default_viewport() -> Viewport {
    Viewport {
        upper_left: ComplexPoint {
            re: -160_000_000,
            im: 120_000_000,
        },
        lower_right: ComplexPoint {
            re: 60_000_000,
            im: -120_000_000,
        },
    }
}

fn all_strategies() -> Vec<Strategy> {
    vec![
        Strategy::Sequential,
        Strategy::MutexForkJoin,
        Strategy::DisjointForkJoin,
        Strategy::ScopedPool(4),
        Strategy::WorkStealing,
    ]
}

#[test]
fn test_make_bands_by_count() {
    let bounds = ImageBounds {
        width: 5,
        height: 10,
    };
    let vp = default_viewport();
    let bands = make_bands(bounds, vp, PartitionSpec::ByCount(3));
    // ceil(10 / 3) = 4 rows per band: rows [0,4), [4,8), [8,10).
    assert_eq!(bands.len(), 3);
    assert_eq!(
        bands.iter().map(|b| (b.row_start, b.row_end)).collect::<Vec<_>>(),
        vec![(0, 4), (4, 8), (8, 10)]
    );
    assert_eq!(
        bands.iter().map(|b| (b.offset, b.len)).collect::<Vec<_>>(),
        vec![(0, 20), (20, 20), (40, 10)]
    );
    let total: usize = bands.iter().map(|b| b.row_end - b.row_start).sum();
    assert_eq!(total, 10);
    // The first band's sub-viewport starts at the viewport's own corner.
    assert_eq!(bands[0].sub.upper_left, vp.upper_left);
    assert_eq!(bands[2].sub.lower_right, vp.lower_right);
}

#[test]
fn test_make_bands_by_size() {
    let bounds = ImageBounds {
        width: 4,
        height: 10,
    };
    let vp = default_viewport();
    let bands = make_bands(bounds, vp, PartitionSpec::BySize(4));
    assert_eq!(
        bands.iter().map(|b| (b.row_start, b.row_end)).collect::<Vec<_>>(),
        vec![(0, 4), (4, 8), (8, 10)]
    );
    // A band size beyond the image height gives a single full band.
    let one = make_bands(bounds, vp, PartitionSpec::BySize(64));
    assert_eq!(
        one.iter().map(|b| (b.row_start, b.row_end)).collect::<Vec<_>>(),
        vec![(0, 10)]
    );
}

#[test]
fn test_bands_cover_each_row_once() {
    let bounds = ImageBounds {
        width: 7,
        height: 23,
    };
    let vp = default_viewport();
    for count in 1..=23usize {
        let bands = make_bands(bounds, vp, PartitionSpec::ByCount(count));
        let mut seen = vec![0u32; 23];
        for b in &bands {
            for row in b.row_start..b.row_end {
                seen[row] += 1;
            }
        }
        assert!(seen.iter().all(|&c| c == 1), "count {count}: {seen:?}");
    }
}

#[test]
fn test_all_strategies_identical_output() {
    let bounds = ImageBounds {
        width: 64,
        height: 48,
    };
    let vp = default_viewport();
    let mut reference = vec![0u8; 64 * 48];
    render(&mut reference, bounds, vp.upper_left, vp.lower_right).unwrap();
    assert!(reference.iter().any(|&b| b != 0));

    for strategy in all_strategies() {
        let mut by_count = vec![0u8; 64 * 48];
        render_parallel(&mut by_count, bounds, vp, PartitionSpec::ByCount(5), strategy)
            .unwrap();
        assert_eq!(by_count, reference, "{strategy:?} by count");

        let mut by_size = vec![0u8; 64 * 48];
        render_parallel(&mut by_size, bounds, vp, PartitionSpec::BySize(7), strategy)
            .unwrap();
        assert_eq!(by_size, reference, "{strategy:?} by size");
    }
}

#[test]
fn test_render_band_is_slice_of_image() {
    let bounds = ImageBounds {
        width: 20,
        height: 15,
    };
    let vp = default_viewport();
    let mut reference = vec![0u8; 20 * 15];
    render(&mut reference, bounds, vp.upper_left, vp.lower_right).unwrap();
    let band = render_band(bounds, vp, 4, 9);
    assert_eq!(band.len(), 5 * 20);
    assert_eq!(&band[..], &reference[4 * 20..9 * 20]);
}

#[test]
fn test_write_band_splices() {
    let mut buf = vec![9u8; 10];
    let bytes = vec![1u8, 2, 3];
    write_band(&mut buf, 4, &bytes);
    assert_eq!(buf, vec![9, 9, 9, 9, 1, 2, 3, 9, 9, 9]);
}

#[test]
fn test_render_parallel_size_mismatch() {
    let bounds = ImageBounds {
        width: 12,
        height: 9,
    };
    let vp = default_viewport();
    for strategy in all_strategies() {
        let mut short = vec![0u8; 12 * 9 - 1];
        let r = render_parallel(&mut short, bounds, vp, PartitionSpec::ByCount(2), strategy);
        assert_eq!(r, Err(CustomError::SizeMismatch), "{strategy:?}");
        assert!(short.iter().all(|&b| b == 0));
    }
}

#[test]
fn test_more_bands_than_rows() {
    let bounds = ImageBounds {
        width: 6,
        height: 4,
    };
    let vp = default_viewport();
    let mut reference = vec![0u8; 6 * 4];
    render(&mut reference, bounds, vp.upper_left, vp.lower_right).unwrap();
    for strategy in all_strategies() {
        let mut buf = vec![0u8; 6 * 4];
        render_parallel(&mut buf, bounds, vp, PartitionSpec::ByCount(9), strategy).unwrap();
        assert_eq!(buf, reference, "{strategy:?}");
    }
}
