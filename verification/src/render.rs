//! The frame renderer: for every pixel of the raster, compose the view
//! transform, the escape-time evaluation and the color mapping, writing a
//! fresh row-major raster.

use vstd::prelude::*;
use vstd::arithmetic::div_mod::lemma_fundamental_div_mod_converse;
use vstd::arithmetic::mul::lemma_mul_inequality;
use crate::color::{Color, color_spec, color_from_iter};
use crate::escape::{escape_time, escape_time_spec};
use crate::view::{ViewState, MAX_DIM, MAX_ITER, WIDTH, HEIGHT, plane_re, plane_im};

verus! {

/// The color a rendered `w` by `h` raster holds at pixel `(x, y)` under
/// view `v`: transform, escape-time count and color map composed.
pub open spec fn pixel_color(v: ViewState, x: int, y: int, w: int, h: int) -> Color {
    color_spec(
        escape_time_spec(plane_re(v, x, w, h), plane_im(v, y, h), MAX_ITER as nat) as int,
        MAX_ITER as int,
    )
}

/// Render a `w` by `h` raster of the view, row-major.
pub fn render_region(view: &ViewState, w: u32, h: u32) -> (img: Vec<Color>)
    requires
        view.wf(),
        1 <= w <= MAX_DIM,
        1 <= h <= MAX_DIM,
    ensures
        img@.len() == w * h,
        forall|x: int, y: int|
            0 <= x < w && 0 <= y < h ==> #[trigger] img@[y * (w as int) + x] == pixel_color(
                *view,
                x,
                y,
                w as int,
                h as int,
            ),
{
    let mut img: Vec<Color> = Vec::new();
    let mut y: u32 = 0;
    while y < h
        invariant
            view.wf(),
            1 <= w <= MAX_DIM,
            1 <= h <= MAX_DIM,
            y <= h,
            img@.len() == y * w,
            forall|i: int|
                0 <= i < img@.len() ==> #[trigger] img@[i] == pixel_color(
                    *view,
                    i % (w as int),
                    i / (w as int),
                    w as int,
                    h as int,
                ),
        decreases h - y,
    {
        let mut x: u32 = 0;
        while x < w
            invariant
                view.wf(),
                1 <= w <= MAX_DIM,
                1 <= h <= MAX_DIM,
                y < h,
                x <= w,
                img@.len() == y * w + x,
                forall|i: int|
                    0 <= i < img@.len() ==> #[trigger] img@[i] == pixel_color(
                        *view,
                        i % (w as int),
                        i / (w as int),
                        w as int,
                        h as int,
                    ),
            decreases w - x,
        {
            let p = view.screen_to_complex_dims(x, y, w, h);
            let count = escape_time(p.0, p.1, MAX_ITER);
            let col = color_from_iter(count, MAX_ITER);
            proof {
                lemma_fundamental_div_mod_converse(
                    (y as int) * (w as int) + (x as int),
                    w as int,
                    y as int,
                    x as int,
                );
            }
            img.push(col);
            x = x + 1;
        }
        proof {
            assert(((y as int) + 1) * (w as int) == (y as int) * (w as int) + (w as int))
                by (nonlinear_arith);
        }
        y = y + 1;
    }
    proof {
        assert forall|x: int, y2: int| 0 <= x < w && 0 <= y2 < h implies #[trigger] img@[y2 * (
        w as int) + x] == pixel_color(*view, x, y2, w as int, h as int) by {
            lemma_mul_inequality(y2 + 1, h as int, w as int);
            assert((y2 + 1) * (w as int) == y2 * (w as int) + (w as int)) by (nonlinear_arith);
            assert((h as int) * (w as int) == (w as int) * (h as int)) by (nonlinear_arith);
            lemma_fundamental_div_mod_converse(y2 * (w as int) + x, w as int, y2, x);
        }
        assert((h as int) * (w as int) == (w as int) * (h as int)) by (nonlinear_arith);
    }
    img
}

/// Render the standard `WIDTH` by `HEIGHT` frame of the view.
pub fn render_mandelbrot(view: &ViewState) -> (img: Vec<Color>)
    requires
        view.wf(),
    ensures
        img@.len() == WIDTH * HEIGHT,
        forall|x: int, y: int|
            0 <= x < WIDTH && 0 <= y < HEIGHT ==> #[trigger] img@[y * (WIDTH as int) + x]
                == pixel_color(*view, x, y, WIDTH as int, HEIGHT as int),
{
    render_region(view, WIDTH, HEIGHT)
}

} // verus!
