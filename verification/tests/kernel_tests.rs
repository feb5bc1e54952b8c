use mandelbrot::customerror::CustomError;
use mandelbrot::geometry::{pixel_to_point, ComplexPoint, ImageBounds};
use mandelbrot::mandel::{escape_mandel_iterations, render};
use mandelbrot::time::{Clock, MyTimestamp};

#[test]
fn test_escape_mandel_iterations() {
    let x = ComplexPoint {
        re: -11_456_000,
        im: 89_808_000,
    };
    assert_eq!(escape_mandel_iterations(x).unwrap(), 66);
}

#[test]
fn mod_test_pixel_to_point() {
    assert_eq!(
        pixel_to_point(
            ImageBounds {
                width: 100,
                height: 100,
            },
            (25, 75),
            ComplexPoint {
                re: -100_000_000,
                im: 100_000_000,
            },
            ComplexPoint {
                re: 100_000_000,
                im: -100_000_000,
            }
        ),
        ComplexPoint {
            re: -50_000_000,
            im: -50_000_000,
        }
    );
}

#[test]
fn mod_test_compute_time_millis() {
    let x1 = MyTimestamp { sec: 3, nsec: 0 };
    let x2 = MyTimestamp { sec: 4, nsec: 0 };
    let x3 = MyTimestamp {
        sec: 4,
        nsec: 500_000_000,
    };
    let x4 = MyTimestamp {
        sec: 6,
        nsec: 200_000_000,
    };

    assert_eq!(x1.compute_time_millis(x2.clone()), 1000);
    assert_eq!(x1.compute_time_millis(x3.clone()), 1500);
    assert_eq!(x2.compute_time_millis(x3.clone()), 500);
    assert_eq!(x3.compute_time_millis(x4), 1700);
}

#[test]
fn test_origin_is_in_set() {
    let origin = ComplexPoint { re: 0, im: 0 };
    assert_eq!(escape_mandel_iterations(origin), None);
}

#[test]
fn test_far_point_escapes_early() {
    // 2 + 2i is far outside the radius-two circle after one step.
    let c = ComplexPoint {
        re: 200_000_000,
        im: 200_000_000,
    };
    let it = escape_mandel_iterations(c).unwrap();
    assert!(it <= 1);
}

#[test]
fn test_pixel_to_point_corners() {
    let bounds = ImageBounds {
        width: 640,
        height: 480,
    };
    let ul = ComplexPoint {
        re: -160_000_000,
        im: 120_000_000,
    };
    let lr = ComplexPoint {
        re: 60_000_000,
        im: -120_000_000,
    };
    assert_eq!(pixel_to_point(bounds, (0, 0), ul, lr), ul);
    assert_eq!(pixel_to_point(bounds, (640, 480), ul, lr), lr);
}

#[test]
fn test_render_size_mismatch() {
    let bounds = ImageBounds {
        width: 10,
        height: 10,
    };
    let ul = ComplexPoint {
        re: -160_000_000,
        im: 120_000_000,
    };
    let lr = ComplexPoint {
        re: 60_000_000,
        im: -120_000_000,
    };
    let mut short = vec![0u8; 10 * 10 - 1];
    let r = render(&mut short, bounds, ul, lr);
    assert_eq!(r, Err(CustomError::SizeMismatch));
    assert_eq!(short.len(), 10 * 10 - 1);
}

#[test]
fn test_clock_value() {
    assert_eq!(Clock::ClockMonotonicRaw.value(), 4);
}

#[test]
fn test_gettime_plausible_and_monotone() {
    let mut start = MyTimestamp::new();
    let mut end = MyTimestamp::new();
    start.gettime(Clock::ClockMonotonicRaw).unwrap();
    end.gettime(Clock::ClockMonotonicRaw).unwrap();
    assert!(start.nsec >= 0 && start.nsec < 1_000_000_000);
    // The raw monotonic clock counts from boot, so a zero reading would
    // mean the wrapper never touched the timestamp.
    assert!(start.sec > 0 || start.nsec > 0);
    assert!(start.elapsed_nanos(end) >= 0);
}

#[test]
fn test_default_timestamp_is_zero() {
    let t = MyTimestamp::default();
    assert_eq!(t, MyTimestamp { sec: 0, nsec: 0 });
}

#[test]
fn test_error_messages() {
    assert_eq!(
        CustomError::SizeMismatch.message(),
        "Array size is to small for bounds."
    );
    assert_eq!(CustomError::ThreadPanic.message(), "Thread paniced");
    assert_eq!(
        CustomError::TimerError.message(),
        "Unsafe C Timer threw an error"
    );
}
