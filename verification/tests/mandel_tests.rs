use mandelbrot::geometry::{pixel_to_point, ComplexPoint, ImageBounds};
use mandelbrot::time::MyTimestamp;

#[test]
fn mandel_tests_test_pixel_to_point() {
    assert_eq!(
        pixel_to_point(
            ImageBounds {
                width: 100,
                height: 100,
            },
            (25, 75),
            ComplexPoint {
                re: -100_000_000,
                im: 100_000_000,
            },
            ComplexPoint {
                re: 100_000_000,
                im: -100_000_000,
            }
        ),
        ComplexPoint {
            re: -50_000_000,
            im: -50_000_000,
        }
    );
}

#[test]
fn mandel_tests_test_compute_time_millis() {
    let x1 = MyTimestamp {
        sec: 3,
        nsec: 0_000_000_000,
    };

    let x2 = MyTimestamp {
        sec: 4,
        nsec: 0_000_000_000,
    };

    let x3 = MyTimestamp {
        sec: 4,
        nsec: 0_500_000_000,
    };

    let x4 = MyTimestamp {
        sec: 6,
        nsec: 0_200_000_000,
    };

    assert_eq!(x1.compute_time_millis(x2.clone()), 1000);
    assert_eq!(x1.compute_time_millis(x3.clone()), 1500);
    assert_eq!(x2.compute_time_millis(x3.clone()), 500);
    assert_eq!(x3.compute_time_millis(x4), 1700);
}
