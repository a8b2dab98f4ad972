use fractal::colour::Colour;
use fractal::config::Resolution;
use fractal::gradient::{Gradient, Mode};
use fractal::mandelbrot::{classify, colourise};
use fractal::raster::Raster;
use fractal::viewport::{fit_axis, Axis};

type Point = (f64, f64);

fn origin() -> Point {
    (0.0, 0.0)
}

fn quadratic(c: Point) -> impl Fn(Point) -> Point {
    move |z: Point| (z.0 * z.0 - z.1 * z.1 + c.0, 2.0 * z.0 * z.1 + c.1)
}

fn within_radius_two(z: Point) -> bool {
    z.0 * z.0 + z.1 * z.1 <= 4.0
}

fn smooth(count: usize, z: Point, max: usize) -> f64 {
    let log_zn = (z.0 * z.0 + z.1 * z.1).ln() / 2.0;
    let nu = (log_zn / 2f64.ln()).log2();
    (count as f64 + 1.0 - nu) / max as f64
}

fn sample(gradient: &Gradient, scalar: f64) -> Colour {
    let stops = gradient.stops().as_slice().iter().map(|c| {
        palette::LinSrgb::new(c.r as f64 / 255.0, c.g as f64 / 255.0, c.b as f64 / 255.0)
    });
    let c = match gradient.mode() {
        Mode::Rgb => palette::Gradient::new(stops).get(scalar),
        Mode::Hsv => unreachable!(),
    };
    Colour {
        r: (c.red * 255.0).round() as u8,
        g: (c.green * 255.0).round() as u8,
        b: (c.blue * 255.0).round() as u8,
    }
}

#[test]
fn a_point_beyond_radius_two_escapes_at_once() {
    let (count, z) = classify(origin(), 100, quadratic((5.0, 0.0)), within_radius_two);
    assert_eq!(count, 1);
    assert_eq!(z, (5.0, 0.0));
    for c in [(2.1, 0.0), (0.0, -3.0), (-2.0, 1.5), (1.5, 1.5), (-2.5, -1.0), (1e10, 0.0)] {
        let (count, z) = classify(origin(), 100, quadratic(c), within_radius_two);
        assert_eq!(count, 1);
        assert_eq!(z, c);
    }
}

#[test]
fn the_origin_never_escapes() {
    for max in [0, 1, 2, 100, 512] {
        let (count, z) = classify(origin(), max, quadratic((0.0, 0.0)), within_radius_two);
        assert_eq!(count, max);
        assert_eq!(z, (0.0, 0.0));
    }
}

#[test]
fn points_of_the_set_reach_the_limit() {
    for c in [(-1.0, 0.0), (0.25, 0.0), (-0.1, 0.1), (0.0, 0.5), (-2.0, 0.0), (-0.5, 0.5)] {
        let (count, _) = classify(origin(), 200, quadratic(c), within_radius_two);
        assert_eq!(count, 200);
    }
}

#[test]
fn the_count_is_the_number_of_steps_taken() {
    let (count, z) = classify(origin(), 100, quadratic((1.0, 0.0)), within_radius_two);
    assert_eq!(count, 3);
    assert_eq!(z, (5.0, 0.0));
    let (count, z) = classify(origin(), 100, quadratic((0.0, 1.5)), within_radius_two);
    assert_eq!(count, 2);
    assert_eq!(z, (-2.25, 1.5));
}

#[test]
fn the_limit_cuts_an_orbit_short() {
    let (count, z) = classify(origin(), 2, quadratic((1.0, 0.0)), within_radius_two);
    assert_eq!(count, 2);
    assert_eq!(z, (2.0, 0.0));
    let (count, z) = classify(origin(), 3, quadratic((1.0, 0.0)), within_radius_two);
    assert_eq!(count, 3);
    assert_eq!(z, (5.0, 0.0));
    let (count, z) = classify(origin(), 0, quadratic((5.0, 0.0)), within_radius_two);
    assert_eq!(count, 0);
    assert_eq!(z, (0.0, 0.0));
}

#[test]
fn the_loop_serves_other_arithmetic() {
    let (count, n) = classify(0u32, 10, |n: u32| n + 1, |n: u32| n < 5);
    assert_eq!((count, n), (5, 5));
    let (count, n) = classify(0u32, 3, |n: u32| n + 1, |n: u32| n < 5);
    assert_eq!((count, n), (3, 3));
    let (count, n) = classify(7u32, 3, |n: u32| n + 1, |n: u32| n < 5);
    assert_eq!((count, n), (0, 7));
    let (count, n) = classify(1u64, 64, |n: u64| 2 * n, |n: u64| n <= 1000);
    assert_eq!((count, n), (10, 1024));
}

#[test]
fn an_escaped_point_gets_its_shade() {
    let shade = |count: usize, z: Point| Colour { r: count as u8, g: z.0 as u8, b: 77 };
    let black = Colour::black();
    let colour =
        colourise(origin(), 100, quadratic((1.0, 0.0)), within_radius_two, shade, black);
    assert_eq!(colour, Colour { r: 3, g: 5, b: 77 });
    let colour =
        colourise(origin(), 100, quadratic((5.0, 0.0)), within_radius_two, shade, black);
    assert_eq!(colour, Colour { r: 1, g: 5, b: 77 });
}

#[test]
fn a_point_of_the_set_gets_the_inside_colour() {
    let asked = std::cell::Cell::new(false);
    let shade = |_: usize, _: Point| {
        asked.set(true);
        Colour { r: 1, g: 2, b: 3 }
    };
    let inside = Colour { r: 9, g: 9, b: 9 };
    let colour =
        colourise(origin(), 100, quadratic((0.0, 0.0)), within_radius_two, shade, inside);
    assert_eq!(colour, inside);
    assert!(!asked.get());
}

#[test]
fn an_orbit_cut_short_counts_as_inside() {
    let shade = |_: usize, _: Point| Colour { r: 1, g: 2, b: 3 };
    let colour = colourise(
        origin(),
        3,
        quadratic((1.0, 0.0)),
        within_radius_two,
        shade,
        Colour::black(),
    );
    assert_eq!(colour, Colour::black());
    let colour = colourise(
        origin(),
        4,
        quadratic((1.0, 0.0)),
        within_radius_two,
        shade,
        Colour::black(),
    );
    assert_eq!(colour, Colour { r: 1, g: 2, b: 3 });
}

#[test]
fn a_small_render_shows_the_set_in_black() {
    let resolution = Resolution { width: 100, height: 66 };
    let (x_start, x_end, y_start, y_end) = (-2.5f64, 1.0f64, -1.0f64, 1.0f64);
    let max = 100;
    let gradient = Gradient::render_default();
    let axis = fit_axis(resolution);
    assert_eq!(axis, Axis::Height);
    let extent = match axis {
        Axis::Width => x_end - x_start,
        Axis::Height => y_end - y_start,
    };
    let scale = extent / resolution.along(axis) as f64;
    let plane = |x: usize, y: usize| (x as f64 * scale + x_start, y as f64 * scale + y_start);

    let corner = plane(0, 0);
    assert!((corner.0 - -2.5).abs() < 1e-12);
    assert!((corner.1 - -1.0).abs() < 1e-12);
    let (count, _) = classify(origin(), max, quadratic(corner), within_radius_two);
    assert_eq!(count, 1);

    let centre = plane(50, 33);
    assert!(centre.0.abs() < 1.0 && centre.1.abs() < 1e-12);
    let (count, _) = classify(origin(), max, quadratic(centre), within_radius_two);
    assert_eq!(count, max);

    let raster = Raster::render(resolution.width, resolution.height, |x, y| {
        colourise(
            origin(),
            max,
            quadratic(plane(x, y)),
            within_radius_two,
            |count, z| sample(&gradient, smooth(count, z, max)),
            Colour::black(),
        )
    })
    .unwrap();
    assert_eq!(raster.width(), 100);
    assert_eq!(raster.height(), 66);
    assert_eq!(raster.get(50, 33), Some(Colour::black()));
    assert_ne!(raster.get(0, 0), Some(Colour::black()));
    assert_eq!(raster.get(0, 0), Some(Colour { r: 11, g: 0, b: 144 }));
    assert_eq!(raster.to_rgb_bytes().len(), 3 * 100 * 66);
    assert_eq!(raster.to_rgb_bytes()[..3], [11, 0, 144]);
}
