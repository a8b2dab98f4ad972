use fractal::config::Resolution;
use fractal::viewport::{fit_axis, scale, scale_axis, Axis, Ratio};

fn res(width: usize, height: usize) -> Resolution {
    Resolution { width, height }
}

#[test]
fn a_view_is_fitted_along_the_shorter_axis() {
    assert_eq!(fit_axis(res(100, 66)), Axis::Height);
    assert_eq!(fit_axis(res(66, 100)), Axis::Width);
    assert_eq!(fit_axis(res(350, 200)), Axis::Height);
    assert_eq!(fit_axis(res(80, 80)), Axis::Width);
    assert_eq!(fit_axis(res(0, 0)), Axis::Width);
    assert_eq!(fit_axis(res(1, 0)), Axis::Height);
}

#[test]
fn along_picks_the_length_of_an_axis() {
    assert_eq!(res(350, 200).along(Axis::Width), 350);
    assert_eq!(res(350, 200).along(Axis::Height), 200);
}

#[test]
fn wider_compares_aspect_ratios() {
    assert!(res(3840, 2160).is_wider_than(&res(350, 200)));
    assert!(!res(350, 200).is_wider_than(&res(3840, 2160)));
    assert!(!res(200, 100).is_wider_than(&res(100, 50)));
    assert!(!res(100, 50).is_wider_than(&res(200, 100)));
    assert!(res(3, 2).is_wider_than(&res(1, 1)));
    assert!(!res(1, 1).is_wider_than(&res(3, 2)));
}

#[test]
fn wider_is_exact_for_the_largest_rasters() {
    let big = usize::MAX;
    assert!(res(big, big - 1).is_wider_than(&res(big - 1, big - 1)));
    assert!(res(big, big - 1).is_wider_than(&res(big, big)));
    assert!(!res(big, big).is_wider_than(&res(big, big)));
    assert!(!res(big - 1, big).is_wider_than(&res(big, big)));
    assert!(!res(big, big - 1).is_wider_than(&res(big - 1, big - 2)));
}

#[test]
fn wider_treats_an_empty_axis_as_a_number() {
    assert!(res(5, 0).is_wider_than(&res(3, 2)));
    assert!(!res(3, 2).is_wider_than(&res(5, 0)));
    assert!(!res(5, 0).is_wider_than(&res(3, 0)));
    assert!(!res(0, 0).is_wider_than(&res(3, 2)));
    assert!(!res(3, 2).is_wider_than(&res(0, 0)));
}

#[test]
fn a_wider_target_is_scaled_by_its_width() {
    assert_eq!(scale_axis(res(350, 200), res(3840, 2160)), Axis::Width);
    assert_eq!(scale(res(350, 200), res(3840, 2160)), Ratio { num: 350, den: 3840 });
}

#[test]
fn a_narrower_target_is_scaled_by_its_height() {
    assert_eq!(scale_axis(res(3840, 2160), res(350, 200)), Axis::Height);
    assert_eq!(scale(res(3840, 2160), res(350, 200)), Ratio { num: 2160, den: 200 });
}

#[test]
fn a_target_of_the_same_aspect_is_scaled_by_its_height() {
    assert_eq!(scale_axis(res(100, 50), res(200, 100)), Axis::Height);
    assert_eq!(scale(res(100, 50), res(200, 100)), Ratio { num: 50, den: 100 });
    assert_eq!(scale(res(200, 100), res(100, 50)), Ratio { num: 100, den: 50 });
    assert_eq!(scale(res(640, 480), res(640, 480)), Ratio { num: 480, den: 480 });
}

#[test]
fn there_and_back_cancel_for_one_aspect() {
    let pairs = [
        (res(100, 50), res(200, 100)),
        (res(350, 200), res(700, 400)),
        (res(16, 9), res(3840, 2160)),
        (res(1, 1), res(4096, 4096)),
    ];
    for (a, b) in pairs {
        let there = scale(a, b);
        let back = scale(b, a);
        assert_eq!(there.num * back.num, there.den * back.den);
    }
}

#[test]
fn there_and_back_shrink_between_aspects() {
    let there = scale(res(350, 200), res(3840, 2160));
    let back = scale(res(3840, 2160), res(350, 200));
    assert_eq!(there.num * back.num, 756_000);
    assert_eq!(there.den * back.den, 768_000);
    assert!(there.num * back.num < there.den * back.den);
}
