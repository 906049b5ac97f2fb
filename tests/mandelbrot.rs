use mandelbrot::color::{black, color_map, pixel_color, Color, Shade};
use mandelbrot::escape::{mandelbrot_escape_time, MAX_ITERATIONS};
use mandelbrot::raster::mandelbrot;

/// Escape flags of the orbit of `c = re + im i`, computed in `f64` up to the
/// first term whose squared magnitude exceeds 4.
fn orbit_flags(re: f64, im: f64) -> Vec<bool> {
    let mut flags = Vec::new();
    let (mut zr, mut zi) = (re, im);
    for _ in 0..MAX_ITERATIONS {
        let escaped = zr * zr + zi * zi > 4.0;
        flags.push(escaped);
        if escaped {
            break;
        }
        let (nr, ni) = (zr * zr - zi * zi + re, 2.0 * zr * zi + im);
        zr = nr;
        zi = ni;
    }
    flags
}

fn hsl_palette() -> Vec<Color> {
    (0..MAX_ITERATIONS)
        .map(|t| {
            let h = t as f64 / MAX_ITERATIONS as f64 * 360f64;
            let (r, g, b) = hsl::HSL { h, s: 0.3, l: 0.6 }.to_rgb();
            Color { r, g, b }
        })
        .collect()
}

fn distinct_palette() -> Vec<Color> {
    (0..MAX_ITERATIONS as u8)
        .map(|t| Color { r: t + 1, g: t + 101, b: 255 - t })
        .collect()
}

#[test]
fn empty_orbit_does_not_escape() {
    assert_eq!(mandelbrot_escape_time(&[]), None);
}

#[test]
fn first_flag_set_is_escape_time() {
    assert_eq!(mandelbrot_escape_time(&[true]), Some(0));
    assert_eq!(mandelbrot_escape_time(&[false, false, true, true]), Some(2));
    let mut flags = vec![false; 5];
    flags.push(true);
    assert_eq!(mandelbrot_escape_time(&flags), Some(5));
}

#[test]
fn last_term_within_budget_counts() {
    let mut flags = vec![false; MAX_ITERATIONS - 1];
    flags.push(true);
    assert_eq!(mandelbrot_escape_time(&flags), Some(99));
}

#[test]
fn escape_beyond_budget_is_no_escape() {
    let mut flags = vec![false; MAX_ITERATIONS];
    flags.push(true);
    assert_eq!(mandelbrot_escape_time(&flags), None);
    assert_eq!(mandelbrot_escape_time(&vec![false; MAX_ITERATIONS]), None);
}

#[test]
fn outside_radius_two_escapes_at_once() {
    for &(re, im) in &[(3.0, 0.0), (2.0, 2.0), (0.0, -2.5), (-1.5, 1.5)] {
        assert_eq!(mandelbrot_escape_time(&orbit_flags(re, im)), Some(0));
    }
}

#[test]
fn origin_never_escapes_and_is_black() {
    let flags = orbit_flags(0.0, 0.0);
    assert_eq!(flags.len(), MAX_ITERATIONS);
    let t = mandelbrot_escape_time(&flags);
    assert_eq!(t, None);
    assert_eq!(color_map(t), Shade::Black);
    assert_eq!(pixel_color(color_map(t), &hsl_palette()), Color { r: 0, g: 0, b: 0 });
}

#[test]
fn minus_one_is_periodic_and_black() {
    let t = mandelbrot_escape_time(&orbit_flags(-1.0, 0.0));
    assert_eq!(t, None);
    assert_eq!(pixel_color(color_map(t), &hsl_palette()), Color { r: 0, g: 0, b: 0 });
}

#[test]
fn boundary_magnitude_is_not_escaped() {
    // c = 2: |c|^2 == 4 does not escape; the next term, 6, does.
    assert_eq!(mandelbrot_escape_time(&orbit_flags(2.0, 0.0)), Some(1));
    assert_eq!(mandelbrot_escape_time(&orbit_flags(-2.0, 0.0)), None);
}

#[test]
fn escape_time_is_deterministic() {
    for &(re, im) in &[(0.3, 0.5), (-0.75, 0.1), (0.26, 0.0), (1.0, 1.0)] {
        let a = mandelbrot_escape_time(&orbit_flags(re, im));
        let b = mandelbrot_escape_time(&orbit_flags(re, im));
        assert_eq!(a, b);
    }
}

#[test]
fn color_map_no_escape_is_black() {
    assert_eq!(color_map(None), Shade::Black);
    assert_eq!(black(), Color { r: 0, g: 0, b: 0 });
    assert_eq!(pixel_color(Shade::Black, &distinct_palette()), Color { r: 0, g: 0, b: 0 });
}

#[test]
fn color_map_escape_takes_palette_hue() {
    let palette = distinct_palette();
    assert_eq!(color_map(Some(7)), Shade::Hue(7));
    assert_eq!(color_map(Some(7)), color_map(Some(7)));
    assert_eq!(pixel_color(color_map(Some(7)), &palette), Color { r: 8, g: 108, b: 248 });
    assert_eq!(pixel_color(color_map(Some(0)), &palette), Color { r: 1, g: 101, b: 255 });
}

#[test]
fn hsl_hue_zero_is_reddish() {
    let palette = hsl_palette();
    let c = pixel_color(color_map(Some(0)), &palette);
    assert!(c.r > c.g && c.g == c.b);
}

#[test]
fn empty_image_has_no_samples() {
    assert_eq!(mandelbrot(0, &vec![], &distinct_palette()), Vec::<u8>::new());
}

#[test]
fn single_pixel_image() {
    let palette = distinct_palette();
    assert_eq!(mandelbrot(1, &vec![vec![false, false, true]], &palette), vec![3, 103, 253]);
    assert_eq!(mandelbrot(1, &vec![vec![false; MAX_ITERATIONS]], &palette), vec![0, 0, 0]);
}

#[test]
fn pixels_are_laid_out_row_by_row() {
    let palette = distinct_palette();
    let orbits = vec![vec![true], vec![false, true], vec![false; 3], vec![false, false, false, true]];
    let samples = mandelbrot(2, &orbits, &palette);
    assert_eq!(samples, vec![1, 101, 255, 2, 102, 254, 0, 0, 0, 4, 104, 252]);
}

#[test]
fn four_by_four_viewport_end_to_end() {
    let (left, bottom, size, n) = (-2.0f64, -2.0f64, 4.0f64, 4u32);
    let palette = hsl_palette();
    let mut orbits = Vec::new();
    let mut points = Vec::new();
    for y in 0..n {
        for x in 0..n {
            let re = left + (x as f64 / n as f64) * size;
            let im = bottom + (y as f64 / n as f64) * size;
            points.push((x, y, re, im));
            orbits.push(orbit_flags(re, im));
        }
    }
    assert_eq!(points[0], (0, 0, -2.0, -2.0));
    assert_eq!(points[15], (3, 3, 1.0, 1.0));
    for &(x, y, re, im) in &points {
        assert_eq!(re, -2.0 + x as f64);
        assert_eq!(im, -2.0 + y as f64);
    }
    let samples = mandelbrot(n, &orbits, &palette);
    assert_eq!(samples.len(), 48);
    for &(x, y, re, im) in &points {
        let c = pixel_color(color_map(mandelbrot_escape_time(&orbit_flags(re, im))), &palette);
        let k = 3 * (y * n + x) as usize;
        assert_eq!(&samples[k..k + 3], &[c.r, c.g, c.b]);
    }
    // (0, 0) lies in the set; (-2, -2) escapes at once.
    assert_eq!(&samples[3 * 10..3 * 10 + 3], &[0, 0, 0]);
    assert_eq!(mandelbrot_escape_time(&orbits[0]), Some(0));
}
