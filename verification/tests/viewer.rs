use mandelbrot::color::{color_from_iter, Color, COLOR_ONE};
use mandelbrot::escape::escape_time;
use mandelbrot::fixed::COORD_ONE;
use mandelbrot::render::{render_mandelbrot, render_region};
use mandelbrot::view::{ViewState, HEIGHT, MAX_ITER, WIDTH};

#[test]
fn view_defaults() {
    let v = ViewState::new();
    assert_eq!(v.center_x, -2147483648);
    assert_eq!(v.center_y, 0);
    assert_eq!(v.zoom_exp, 0);
}

#[test]
fn reset_restores_defaults() {
    let mut v = ViewState::new();
    v.recenter(123456789, -987654321);
    v.zoom_in();
    v.zoom_in();
    v.reset();
    assert_eq!(v.center_x, -2147483648);
    assert_eq!(v.center_y, 0);
    assert_eq!(v.zoom_exp, 0);
}

#[test]
fn center_pixel_maps_to_center() {
    let v = ViewState::new();
    let (re, im) = v.screen_to_complex(400, 300);
    assert_eq!(re, v.center_x);
    assert_eq!(im, v.center_y);
}

#[test]
fn corner_pixel_exact() {
    // (0,0) sits at center + (-7/3, -7/4) in plane units: the real offset
    // truncates to -floor(7 * 2^32 / 3) and the imaginary one is exact.
    let v = ViewState::new();
    let (re, im) = v.screen_to_complex(0, 0);
    assert_eq!(re, -2147483648 - 10021590357);
    assert_eq!(im, -7516192768);
}

#[test]
fn transform_monotone_along_axes() {
    let v = ViewState::new();
    let mut last_re = v.screen_to_complex(0, 300).0;
    for x in 1..800 {
        let re = v.screen_to_complex(x, 300).0;
        assert!(re >= last_re);
        last_re = re;
    }
    let mut last_im = v.screen_to_complex(400, 0).1;
    for y in 1..600 {
        let im = v.screen_to_complex(400, y).1;
        assert!(im >= last_im);
        last_im = im;
    }
}

#[test]
fn zoom_round_trip() {
    let mut v = ViewState::new();
    v.zoom_in();
    assert_eq!(v.zoom_exp, 1);
    v.zoom_out();
    assert_eq!(v.zoom_exp, 0);
}

#[test]
fn click_zoom_round_trip() {
    // Zoom-in then zoom-out clicks restore the zoom factor; the center is
    // overwritten by each click, not reversed.
    let mut v = ViewState::new();
    assert!(v.zoom_in_at(250, 120));
    assert_eq!(v.zoom_exp, 1);
    assert!(v.zoom_out_at(610, 480));
    assert_eq!(v.zoom_exp, 0);
}

#[test]
fn click_at_center_keeps_center() {
    let mut v = ViewState::new();
    assert!(v.zoom_in_at(400, 300));
    assert_eq!(v.center_x, -2147483648);
    assert_eq!(v.center_y, 0);
    assert_eq!(v.zoom_exp, 1);
}

#[test]
fn zoom_out_stops_at_limit() {
    let mut v = ViewState::new();
    for _ in 0..8 {
        assert!(v.zoom_out_at(400, 300));
    }
    assert_eq!(v.zoom_exp, -8);
    let before = (v.center_x, v.center_y, v.zoom_exp);
    assert!(!v.zoom_out_at(400, 300));
    assert_eq!((v.center_x, v.center_y, v.zoom_exp), before);
}

#[test]
fn escape_origin_reaches_cap() {
    assert_eq!(escape_time(0, 0, 256), 256);
    assert_eq!(escape_time(0, 0, 1), 1);
    assert_eq!(escape_time(0, 0, 1000), 1000);
}

#[test]
fn escape_far_point_is_small() {
    // c = 2 + 0i: |c|^2 = 4 passes the boundary test once, so the point
    // leaves after very few steps.
    let n = escape_time(2 * COORD_ONE, 0, 256);
    assert_eq!(n, 2);
    assert!(n <= 2);
}

#[test]
fn escape_prefix_is_stable() {
    // c = 1 + i escapes after exactly two steps, under a small cap and a
    // large one alike.
    let n_small = escape_time(COORD_ONE, COORD_ONE, 8);
    let n_large = escape_time(COORD_ONE, COORD_ONE, 256);
    assert_eq!(n_small, 2);
    assert_eq!(n_large, 2);
}

#[test]
fn color_at_cap_is_black() {
    assert_eq!(color_from_iter(256, 256), Color { r: 0, g: 0, b: 0, a: COLOR_ONE });
    assert_eq!(color_from_iter(5, 5), Color { r: 0, g: 0, b: 0, a: COLOR_ONE });
}

#[test]
fn color_channels_stay_in_range() {
    for n in 0..=256 {
        let c = color_from_iter(n, 256);
        assert!(c.r <= COLOR_ONE);
        assert!(c.g <= COLOR_ONE);
        assert!(c.b <= COLOR_ONE);
        assert_eq!(c.a, COLOR_ONE);
    }
    for n in 0..=7 {
        let c = color_from_iter(n, 7);
        assert!(c.r <= COLOR_ONE);
        assert!(c.g <= COLOR_ONE);
        assert!(c.b <= COLOR_ONE);
        assert_eq!(c.a, COLOR_ONE);
    }
}

#[test]
fn color_midpoint_exact() {
    // n = 128, max = 256: hue 180 in sector 3, v = 1, c = 4/5, x = c,
    // m = 1/5: channels (1/5, 1, 1) scaled by COLOR_ONE, truncated.
    let c = color_from_iter(128, 256);
    assert_eq!(c, Color { r: 13107, g: 65536, b: 65536, a: 65536 });
}

#[test]
fn color_zero_count_is_dark() {
    // n = 0 gives v = 0: every channel vanishes, but through the HSV path.
    let c = color_from_iter(0, 256);
    assert_eq!(c, Color { r: 0, g: 0, b: 0, a: 65536 });
}

#[test]
fn zoom_in_stops_at_limit() {
    let mut v = ViewState::new();
    for _ in 0..40 {
        assert!(v.zoom_in_at(400, 300));
    }
    assert_eq!(v.zoom_exp, 40);
    let before = (v.center_x, v.center_y, v.zoom_exp);
    assert!(!v.zoom_in_at(400, 300));
    assert_eq!((v.center_x, v.center_y, v.zoom_exp), before);
}

#[test]
fn color_depends_on_ratio_at_midpoint() {
    // n/max = 1/2 lands on hue 180 whatever the cap, and v = 1 exactly.
    assert_eq!(color_from_iter(1, 2), Color { r: 13107, g: 65536, b: 65536, a: 65536 });
    assert_eq!(color_from_iter(1, 2), color_from_iter(128, 256));
}

#[test]
fn color_small_cap_exact() {
    // n = 1, max = 7: sector 0, v = 2/7, c = 8/35, x = c * 6/7, m = 2/35;
    // channels 70/245, 62/245 and 14/245 scaled by COLOR_ONE, truncated.
    let c = color_from_iter(1, 7);
    assert_eq!(c, Color { r: 18724, g: 16584, b: 3744, a: 65536 });
}

#[test]
fn escape_boundary_point() {
    // c = 2i: |c|^2 = 4 sits exactly on the boundary test, which uses <=,
    // so one more step runs before the point leaves.
    assert_eq!(escape_time(0, 2 * COORD_ONE, 256), 2);
}

#[test]
fn escape_prefix_over_grid() {
    // Wherever a point escapes within a small cap, a larger cap reports
    // the same count.
    for i in -10..=10i64 {
        for j in -10..=10i64 {
            let cr = i * (COORD_ONE / 4);
            let ci = j * (COORD_ONE / 4);
            let small = escape_time(cr, ci, 64);
            assert!(small <= 64);
            if small < 64 {
                assert_eq!(escape_time(cr, ci, 256), small);
            }
        }
    }
}

#[test]
fn render_composes_per_pixel() {
    let v = ViewState::new();
    let img = render_region(&v, 8, 6);
    assert_eq!(img.len(), 48);
    for y in 0..6u32 {
        for x in 0..8u32 {
            let (re, im) = v.screen_to_complex_dims(x, y, 8, 6);
            let expect = color_from_iter(escape_time(re, im, MAX_ITER), MAX_ITER);
            assert_eq!(img[(y * 8 + x) as usize], expect);
        }
    }
}

#[test]
fn render_region_dimensions() {
    let v = ViewState::new();
    let img = render_region(&v, 80, 60);
    assert_eq!(img.len(), 4800);
    let (re, im) = v.screen_to_complex_dims(0, 0, 80, 60);
    assert_eq!(img[0], color_from_iter(escape_time(re, im, MAX_ITER), MAX_ITER));
    // The center of the default view lies inside the set: black pixel.
    let (cre, cim) = v.screen_to_complex_dims(40, 30, 80, 60);
    assert_eq!(escape_time(cre, cim, MAX_ITER), MAX_ITER);
    assert_eq!(img[(30 * 80 + 40) as usize], Color { r: 0, g: 0, b: 0, a: COLOR_ONE });
}

#[test]
fn render_full_frame_size() {
    let v = ViewState::new();
    let mut zoomed = v;
    // A deeply zoomed view escapes fast everywhere, keeping this cheap.
    for _ in 0..30 {
        zoomed.zoom_in();
    }
    zoomed.recenter(2 * COORD_ONE, 2 * COORD_ONE);
    let img = render_mandelbrot(&zoomed);
    assert_eq!(img.len(), (WIDTH * HEIGHT) as usize);
}
