use rust_julia::color::{color_for, hue_sector_rgb, BLACK};
use rust_julia::escape::{calc_escape, EscapeResult};
use rust_julia::frame::{draw, frame_coords, pixel_coord};
use rust_julia::render::calc_frame;
use rust_julia::report::log_error;
use rust_julia::sample::{average_color, subsample_grid, supersample, ITERATION_BOUND, SUBSAMPLES_PER_AXIS};

fn julia_step(c: (f64, f64)) -> impl Fn((f64, f64)) -> (f64, f64) {
    move |z: (f64, f64)| (z.0 * z.0 - z.1 * z.1 + c.0, z.0 * z.1 + z.1 * z.0 + c.1)
}

fn outside_radius(z: (f64, f64)) -> bool {
    (z.0 * z.0 + z.1 * z.1).sqrt() > 2.0
}

fn hsv(h: f64, s: f64, v: f64) -> (u8, u8, u8) {
    let c = v * s;
    let x = c * (1.0 - f64::abs(((h * 6.0) % 2.0) - 1.0));
    let m = v - c;
    let sector = ((h % 1.0) * 6.0) as u8;
    let rgb = hue_sector_rgb(sector, c, x, 0.0);
    (
        ((rgb.0 + m) * 255.0).round() as u8,
        ((rgb.1 + m) * 255.0).round() as u8,
        ((rgb.2 + m) * 255.0).round() as u8,
    )
}

#[test]
fn test_calc_escape_bounded() {
    match calc_escape(50, (0.0, 0.0), julia_step((-0.11, 0.82)), outside_radius) {
        EscapeResult::Bounded => (),
        EscapeResult::Escaped { .. } => panic!(),
    }
}

#[test]
fn test_calc_escape_unbounded() {
    match calc_escape(50, (0.0, 0.0), julia_step((-1.15, 0.58)), outside_radius) {
        EscapeResult::Bounded => panic!(),
        EscapeResult::Escaped { iter_count, .. } => assert!(iter_count >= 1 && iter_count < 50),
    }
}

#[test]
fn test_hsv_to_rgb() {
    assert_eq!(hsv(0.0, 0.6, 1.0), (255, 102, 102));
    assert_eq!(hsv(0.5, 0.6, 1.0), (102, 255, 255));
    assert_eq!(hsv(0.25, 0.6, 1.0), (179, 255, 102));
}

#[test]
fn escape_reports_first_crossing() {
    let r = calc_escape(10, 0u32, |n: u32| n + 1, |n: u32| n > 3);
    match r {
        EscapeResult::Escaped { iter_count, final_val } => {
            assert_eq!(iter_count, 4);
            assert_eq!(final_val, 4);
        }
        EscapeResult::Bounded => panic!(),
    }
}

#[test]
fn escape_at_the_bound_is_bounded() {
    assert!(matches!(calc_escape(4, 0u32, |n: u32| n + 1, |n: u32| n > 3), EscapeResult::Bounded));
    assert!(matches!(
        calc_escape(5, 0u32, |n: u32| n + 1, |n: u32| n > 3),
        EscapeResult::Escaped { iter_count: 4, final_val: 4 }
    ));
}

#[test]
fn escape_with_tiny_bounds_never_steps() {
    assert!(matches!(calc_escape(0, 9u32, |n: u32| n + 1, |_n: u32| true), EscapeResult::Bounded));
    assert!(matches!(calc_escape(1, 9u32, |n: u32| n + 1, |_n: u32| true), EscapeResult::Bounded));
    assert!(matches!(
        calc_escape(2, 9u32, |n: u32| n + 1, |_n: u32| true),
        EscapeResult::Escaped { iter_count: 1, final_val: 10 }
    ));
}

#[test]
fn hue_sectors_follow_the_table() {
    assert_eq!(hue_sector_rgb(0, 'c', 'x', '0'), ('c', 'x', '0'));
    assert_eq!(hue_sector_rgb(1, 'c', 'x', '0'), ('x', 'c', '0'));
    assert_eq!(hue_sector_rgb(2, 'c', 'x', '0'), ('0', 'c', 'x'));
    assert_eq!(hue_sector_rgb(3, 'c', 'x', '0'), ('0', 'x', 'c'));
    assert_eq!(hue_sector_rgb(4, 'c', 'x', '0'), ('x', '0', 'c'));
    assert_eq!(hue_sector_rgb(5, 'c', 'x', '0'), ('c', '0', 'x'));
    assert_eq!(hue_sector_rgb(200, 'c', 'x', '0'), ('c', '0', 'x'));
}

#[test]
fn bounded_orbit_is_black() {
    let bounded: EscapeResult<u32> = EscapeResult::Bounded;
    assert_eq!(color_for(bounded, |_n: u32, _v: u32| (1, 2, 3)), BLACK);
    assert_eq!(BLACK, (0, 0, 0));
    let escaped = EscapeResult::Escaped { iter_count: 7, final_val: 9u32 };
    assert_eq!(color_for(escaped, |n: u32, v: u32| (n as u8, v as u8, 1)), (7, 9, 1));
}

#[test]
fn pixel_coord_is_row_major() {
    assert_eq!(pixel_coord(0, 3, 2), (0, 0));
    assert_eq!(pixel_coord(2, 3, 2), (2, 0));
    assert_eq!(pixel_coord(3, 3, 2), (0, 1));
    assert_eq!(pixel_coord(5, 3, 2), (2, 1));
}

#[test]
fn frame_coords_cover_the_raster() {
    let coords = frame_coords(3, 2);
    assert_eq!(coords, vec![(0, 0), (1, 0), (2, 0), (0, 1), (1, 1), (2, 1)]);
    assert!(frame_coords(0, 5).is_empty());
}

#[test]
fn frame_corners_are_in_range() {
    let coords = frame_coords(7, 5);
    assert_eq!(coords[0], (0, 0));
    assert_eq!(coords[7 * 5 - 1], (6, 4));
}

#[test]
fn draw_writes_opaque_rgba() {
    let colors = vec![(1, 2, 3), (250, 128, 0)];
    let mut buffer = vec![9u8; 8];
    draw(&mut buffer, 2, 1, &colors);
    assert_eq!(buffer, vec![1, 2, 3, 255, 250, 128, 0, 255]);
}

#[test]
fn subsample_grid_is_column_first() {
    assert_eq!(subsample_grid(2), vec![(1, 1), (1, 2), (2, 1), (2, 2)]);
    assert_eq!(subsample_grid(1), vec![(1, 1)]);
    assert_eq!(SUBSAMPLES_PER_AXIS, 2);
    assert_eq!(ITERATION_BOUND, 500);
}

#[test]
fn average_truncates_toward_zero() {
    let samples = vec![(255, 0, 10), (0, 0, 11), (1, 2, 3), (3, 3, 3)];
    assert_eq!(average_color(&samples), (64, 1, 6));
    assert_eq!(average_color(&[(255, 255, 255)]), (255, 255, 255));
    assert_eq!(average_color(&[(255, 255, 255); 4]), (255, 255, 255));
}

#[test]
fn supersample_averages_the_grid() {
    let c = supersample(2, |p: (u32, u32)| ((p.0 * 10) as u8, (p.1 * 20) as u8, 0));
    assert_eq!(c, (15, 30, 0));
    let black = supersample(2, |_p: (u32, u32)| (0, 0, 0));
    assert_eq!(black, (0, 0, 0));
}

#[test]
fn calc_frame_is_row_major_and_sized() {
    let frame = calc_frame(4, 4, |p: (u32, u32)| (p.0 as u8, p.1 as u8, 7));
    assert_eq!(frame.len(), 16);
    for (idx, c) in frame.iter().enumerate() {
        assert_eq!(*c, ((idx % 4) as u8, (idx / 4) as u8, 7));
    }
    let wide = calc_frame(5, 2, |p: (u32, u32)| (p.0 as u8, p.1 as u8, 0));
    assert_eq!(wide.len(), 10);
    assert_eq!(wide[9], (4, 1, 0));
}

#[test]
fn calc_frame_is_repeatable() {
    let pixel = |p: (u32, u32)| ((p.0 * 31 + p.1 * 7) as u8, (p.0 ^ p.1) as u8, 255);
    assert_eq!(calc_frame(9, 6, pixel), calc_frame(9, 6, pixel));
}

#[test]
fn log_error_formats_the_line() {
    assert_eq!(log_error("pixels.render", "surface lost"), "pixels.render() failed: surface lost");
    assert_eq!(log_error("", ""), "() failed: ");
}
