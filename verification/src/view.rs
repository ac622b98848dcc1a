//! The view transform: a center coordinate and a power-of-two zoom factor,
//! and the affine mapping from pixel space to the complex plane.
//!
//! With `aspect = w / h` and `range = (7/2) / zoom`, a pixel `(x, y)` maps
//! to `center + ((x/w - 1/2) * range * aspect, (y/h - 1/2) * range)`; the
//! width cancels out of the real axis, leaving both offsets equal to
//! `(2p - dim) * 7 / (4 * h * zoom)` in plane units, which is computed here
//! exactly in fixed point with one truncating division.

use vstd::prelude::*;
use vstd::arithmetic::power2::{
    pow2,
    lemma_pow2_pos,
    lemma_pow2_strictly_increases,
    lemma2_to64,
    lemma2_to64_rest,
};
use crate::fixed::{COORD_ONE, COORD_LIMIT, tdiv, trunc_div, lemma_tdiv_bound, lemma_tdiv_mono};

verus! {

/// Raster width of the rendered frame, in pixels.
pub const WIDTH: u32 = 800;

/// Raster height of the rendered frame, in pixels.
pub const HEIGHT: u32 = 600;

/// Iteration cap of the escape-time evaluation.
pub const MAX_ITER: u32 = 256;

/// Largest raster dimension the transform and the renderer accept.
pub const MAX_DIM: u32 = 4096;

/// Smallest zoom exponent: the view cannot zoom out below `2^-8`.
pub const ZOOM_EXP_MIN: i32 = -8;

/// Largest zoom exponent: the view cannot zoom in beyond `2^40`.
pub const ZOOM_EXP_MAX: i32 = 40;

/// Largest magnitude the view center may take (2^55 plane-scale units);
/// one pixel offset further stays within `COORD_LIMIT`.
pub const CENTER_LIMIT: i64 = 36028797018963968;

/// The value 0.5 at scale `COORD_ONE`; the default center is `(-0.5, 0.0)`.
pub const HALF_COORD: i64 = 2147483648;

/// The current viewport: a fixed-point center coordinate and the zoom
/// factor `2^zoom_exp`. Zooming only ever doubles or halves the factor, so
/// holding the exponent keeps it exact.
#[derive(Clone, Copy, PartialEq, Eq, Structural, Debug)]
pub struct ViewState {
    pub center_x: i64,
    pub center_y: i64,
    pub zoom_exp: i32,
}

/// Power-of-two factor a negative zoom exponent contributes to the offset
/// numerator.
pub open spec fn zoom_num(e: int) -> int {
    if e < 0 {
        pow2((-e) as nat) as int
    } else {
        1
    }
}

/// Power-of-two factor a nonnegative zoom exponent contributes to the
/// offset denominator.
pub open spec fn zoom_den(e: int) -> int {
    if e >= 0 {
        pow2(e as nat) as int
    } else {
        1
    }
}

/// Offset, from the view center, of pixel index `p` on an axis of `dim`
/// pixels: `(2p - dim) * 7 / (4 * h * 2^e)` in plane units, truncated once.
pub open spec fn axis_offset(p: int, dim: int, h: int, e: int) -> int {
    tdiv((2 * p - dim) * (7 * (COORD_ONE as int) * zoom_num(e)), 4 * h * zoom_den(e))
}

/// Real coordinate of pixel column `x` in a `w` by `h` raster.
pub open spec fn plane_re(v: ViewState, x: int, w: int, h: int) -> int {
    v.center_x + axis_offset(x, w, h, v.zoom_exp as int)
}

/// Imaginary coordinate of pixel row `y` in a raster of height `h`.
pub open spec fn plane_im(v: ViewState, y: int, h: int) -> int {
    v.center_y + axis_offset(y, h, h, v.zoom_exp as int)
}

/// The view the program starts from: center `(-0.5, 0.0)`, zoom `1.0`.
pub open spec fn default_view() -> ViewState {
    ViewState { center_x: ((-HALF_COORD) as i64), center_y: 0, zoom_exp: 0 }
}

/// The view after recentering on the plane point `(re, im)`.
pub open spec fn recentered(v: ViewState, re: int, im: int) -> ViewState {
    ViewState { center_x: re as i64, center_y: im as i64, zoom_exp: v.zoom_exp }
}

/// The view after doubling the zoom factor.
pub open spec fn zoomed_in(v: ViewState) -> ViewState {
    ViewState { center_x: v.center_x, center_y: v.center_y, zoom_exp: (v.zoom_exp + 1) as i32 }
}

/// The view after halving the zoom factor.
pub open spec fn zoomed_out(v: ViewState) -> ViewState {
    ViewState { center_x: v.center_x, center_y: v.center_y, zoom_exp: (v.zoom_exp - 1) as i32 }
}

impl ViewState {
    /// The representation invariant: the center stays within
    /// `CENTER_LIMIT` and the zoom exponent within its two bounds, so the
    /// zoom factor is strictly positive and every pixel maps inside
    /// `COORD_LIMIT`.
    pub open spec fn wf(self) -> bool {
        &&& -CENTER_LIMIT <= self.center_x <= CENTER_LIMIT
        &&& -CENTER_LIMIT <= self.center_y <= CENTER_LIMIT
        &&& ZOOM_EXP_MIN <= self.zoom_exp <= ZOOM_EXP_MAX
    }

    /// A fresh view showing the whole set.
    pub fn new() -> (v: ViewState)
        ensures
            v == default_view(),
            v.wf(),
    {
        ViewState { center_x: -HALF_COORD, center_y: 0, zoom_exp: 0 }
    }

    /// Restore the defaults, whatever the current state.
    pub fn reset(&mut self)
        ensures
            *final(self) == default_view(),
            final(self).wf(),
    {
        *self = ViewState { center_x: -HALF_COORD, center_y: 0, zoom_exp: 0 };
    }

    /// Move the center to the plane point `(re, im)`.
    pub fn recenter(&mut self, re: i64, im: i64)
        requires
            old(self).wf(),
            -CENTER_LIMIT <= re <= CENTER_LIMIT,
            -CENTER_LIMIT <= im <= CENTER_LIMIT,
        ensures
            *final(self) == recentered(*old(self), re as int, im as int),
            final(self).wf(),
    {
        self.center_x = re;
        self.center_y = im;
    }

    /// Double the zoom factor.
    pub fn zoom_in(&mut self)
        requires
            old(self).wf(),
            old(self).zoom_exp < ZOOM_EXP_MAX,
        ensures
            *final(self) == zoomed_in(*old(self)),
            final(self).wf(),
    {
        self.zoom_exp = self.zoom_exp + 1;
    }

    /// Halve the zoom factor.
    pub fn zoom_out(&mut self)
        requires
            old(self).wf(),
            old(self).zoom_exp > ZOOM_EXP_MIN,
        ensures
            *final(self) == zoomed_out(*old(self)),
            final(self).wf(),
    {
        self.zoom_exp = self.zoom_exp - 1;
    }

    /// Map pixel `(x, y)` of a `w` by `h` raster to the complex plane.
    pub fn screen_to_complex_dims(&self, x: u32, y: u32, w: u32, h: u32) -> (p: (i64, i64))
        requires
            self.wf(),
            1 <= w <= MAX_DIM,
            1 <= h <= MAX_DIM,
            x < w,
            y < h,
        ensures
            p.0 == plane_re(*self, x as int, w as int, h as int),
            p.1 == plane_im(*self, y as int, h as int),
            -COORD_LIMIT <= p.0 <= COORD_LIMIT,
            -COORD_LIMIT <= p.1 <= COORD_LIMIT,
    {
        let ghost e: int = self.zoom_exp as int;
        let (mul, div): (u64, u64) = if self.zoom_exp >= 0 {
            (1u64, pow2_u64(self.zoom_exp as u32))
        } else {
            (pow2_u64((-self.zoom_exp) as u32), 1u64)
        };
        proof {
            assert(mul as int == zoom_num(e));
            assert(div as int == zoom_den(e));
            assert(1 <= mul <= 256) by {
                if e < 0 {
                    if -e < 8 {
                        lemma_pow2_strictly_increases((-e) as nat, 8);
                    }
                    lemma2_to64();
                }
            }
            assert(1 <= div <= 1099511627776) by {
                if e >= 0 {
                    if e < 40 {
                        lemma_pow2_strictly_increases(e as nat, 40);
                    }
                    lemma2_to64_rest();
                }
            }
            assert(0 < (7 * (COORD_ONE as i128)) * (mul as i128) <= 7696581394432)
                by (nonlinear_arith)
                requires
                    1 <= mul <= 256,
                    COORD_ONE == 4294967296i64,
            ;
            assert(4 <= (4 * (h as u128)) * (div as u128) <= 18014398509481984)
                by (nonlinear_arith)
                requires
                    1 <= h <= 4096,
                    1 <= div <= 1099511627776,
            ;
        }
        let factor: i128 = (7 * (COORD_ONE as i128)) * (mul as i128);
        let den: u128 = (4 * (h as u128)) * (div as u128);
        let dx: i128 = 2 * (x as i128) - (w as i128);
        let dy: i128 = 2 * (y as i128) - (h as i128);
        proof {
            assert(-31525197391593472 <= dx * factor <= 31525197391593472) by (nonlinear_arith)
                requires
                    -4096 <= dx <= 4096,
                    0 < factor <= 7696581394432,
            ;
            assert(-31525197391593472 <= dy * factor <= 31525197391593472) by (nonlinear_arith)
                requires
                    -4096 <= dy <= 4096,
                    0 < factor <= 7696581394432,
            ;
        }
        let num_x: i128 = dx * factor;
        let num_y: i128 = dy * factor;
        proof {
            lemma_tdiv_bound(num_x as int, den as int, 18014398509481984int);
            lemma_tdiv_bound(num_y as int, den as int, 18014398509481984int);
        }
        let off_x: i64 = trunc_div(num_x, den);
        let off_y: i64 = trunc_div(num_y, den);
        (self.center_x + off_x, self.center_y + off_y)
    }

    /// Handle a zoom-in click at pixel `(x, y)` of the standard raster:
    /// recenter on the clicked plane point, then double the zoom. Returns
    /// false, leaving the view unchanged, when a representation limit
    /// would be crossed.
    pub fn zoom_in_at(&mut self, x: u32, y: u32) -> (ok: bool)
        requires
            old(self).wf(),
            x < WIDTH,
            y < HEIGHT,
        ensures
            final(self).wf(),
            ok == (old(self).zoom_exp < ZOOM_EXP_MAX && -CENTER_LIMIT <= plane_re(
                *old(self),
                x as int,
                WIDTH as int,
                HEIGHT as int,
            ) <= CENTER_LIMIT && -CENTER_LIMIT <= plane_im(
                *old(self),
                y as int,
                HEIGHT as int,
            ) <= CENTER_LIMIT),
            ok ==> *final(self) == zoomed_in(
                recentered(
                    *old(self),
                    plane_re(*old(self), x as int, WIDTH as int, HEIGHT as int),
                    plane_im(*old(self), y as int, HEIGHT as int),
                ),
            ),
            !ok ==> *final(self) == *old(self),
    {
        let p = self.screen_to_complex(x, y);
        if self.zoom_exp < ZOOM_EXP_MAX && -CENTER_LIMIT <= p.0 && p.0 <= CENTER_LIMIT
            && -CENTER_LIMIT <= p.1 && p.1 <= CENTER_LIMIT {
            self.center_x = p.0;
            self.center_y = p.1;
            self.zoom_exp = self.zoom_exp + 1;
            true
        } else {
            false
        }
    }

    /// Handle a zoom-out click at pixel `(x, y)` of the standard raster:
    /// recenter on the clicked plane point, then halve the zoom. Returns
    /// false, leaving the view unchanged, when a representation limit
    /// would be crossed.
    pub fn zoom_out_at(&mut self, x: u32, y: u32) -> (ok: bool)
        requires
            old(self).wf(),
            x < WIDTH,
            y < HEIGHT,
        ensures
            final(self).wf(),
            ok == (old(self).zoom_exp > ZOOM_EXP_MIN && -CENTER_LIMIT <= plane_re(
                *old(self),
                x as int,
                WIDTH as int,
                HEIGHT as int,
            ) <= CENTER_LIMIT && -CENTER_LIMIT <= plane_im(
                *old(self),
                y as int,
                HEIGHT as int,
            ) <= CENTER_LIMIT),
            ok ==> *final(self) == zoomed_out(
                recentered(
                    *old(self),
                    plane_re(*old(self), x as int, WIDTH as int, HEIGHT as int),
                    plane_im(*old(self), y as int, HEIGHT as int),
                ),
            ),
            !ok ==> *final(self) == *old(self),
    {
        let p = self.screen_to_complex(x, y);
        if self.zoom_exp > ZOOM_EXP_MIN && -CENTER_LIMIT <= p.0 && p.0 <= CENTER_LIMIT
            && -CENTER_LIMIT <= p.1 && p.1 <= CENTER_LIMIT {
            self.center_x = p.0;
            self.center_y = p.1;
            self.zoom_exp = self.zoom_exp - 1;
            true
        } else {
            false
        }
    }

    /// Map pixel `(x, y)` of the standard raster to the complex plane.
    pub fn screen_to_complex(&self, x: u32, y: u32) -> (p: (i64, i64))
        requires
            self.wf(),
            x < WIDTH,
            y < HEIGHT,
        ensures
            p.0 == plane_re(*self, x as int, WIDTH as int, HEIGHT as int),
            p.1 == plane_im(*self, y as int, HEIGHT as int),
            -COORD_LIMIT <= p.0 <= COORD_LIMIT,
            -COORD_LIMIT <= p.1 <= COORD_LIMIT,
    {
        self.screen_to_complex_dims(x, y, WIDTH, HEIGHT)
    }
}

/// The view transform is monotone along each raster axis: moving right on
/// the screen never decreases the real coordinate, and moving down never
/// decreases the imaginary one (the fixed-point counterpart of the
/// transform varying continuously with the pixel).
pub proof fn lemma_transform_monotone(v: ViewState, x1: int, x2: int, y1: int, y2: int, w: int, h: int)
    requires
        v.wf(),
        1 <= w,
        1 <= h,
        0 <= x1 <= x2 < w,
        0 <= y1 <= y2 < h,
    ensures
        plane_re(v, x1, w, h) <= plane_re(v, x2, w, h),
        plane_im(v, y1, h) <= plane_im(v, y2, h),
{
    let e = v.zoom_exp as int;
    let k = 7 * (COORD_ONE as int) * zoom_num(e);
    let d = 4 * h * zoom_den(e);
    assert(zoom_num(e) >= 1 && zoom_den(e) >= 1) by {
        if e < 0 {
            lemma_pow2_pos((-e) as nat);
        } else {
            lemma_pow2_pos(e as nat);
        }
    }
    assert(k > 0) by (nonlinear_arith)
        requires
            zoom_num(e) >= 1,
            COORD_ONE == 4294967296i64,
            k == 7 * (COORD_ONE as int) * zoom_num(e),
    ;
    assert(d > 0) by (nonlinear_arith)
        requires
            h >= 1,
            zoom_den(e) >= 1,
            d == 4 * h * zoom_den(e),
    ;
    assert((2 * x1 - w) * k <= (2 * x2 - w) * k) by (nonlinear_arith)
        requires
            x1 <= x2,
            k > 0,
    ;
    assert((2 * y1 - h) * k <= (2 * y2 - h) * k) by (nonlinear_arith)
        requires
            y1 <= y2,
            k > 0,
    ;
    lemma_tdiv_mono((2 * x1 - w) * k, (2 * x2 - w) * k, d);
    lemma_tdiv_mono((2 * y1 - h) * k, (2 * y2 - h) * k, d);
}

/// The center pixel of a raster with even dimensions maps exactly onto
/// the view center: its offset numerator vanishes, so no truncation
/// error can enter.
pub proof fn lemma_center_pixel_maps_to_center(v: ViewState, w: int, h: int)
    requires
        v.wf(),
        1 <= w,
        1 <= h,
        w % 2 == 0,
        h % 2 == 0,
    ensures
        plane_re(v, w / 2, w, h) == v.center_x,
        plane_im(v, h / 2, h) == v.center_y,
{
    let e = v.zoom_exp as int;
    let k = 7 * (COORD_ONE as int) * zoom_num(e);
    let d = 4 * h * zoom_den(e);
    assert(zoom_den(e) >= 1) by {
        if e >= 0 {
            lemma_pow2_pos(e as nat);
        }
    }
    assert(d > 0) by (nonlinear_arith)
        requires
            h >= 1,
            zoom_den(e) >= 1,
            d == 4 * h * zoom_den(e),
    ;
    assert(2 * (w / 2) - w == 0);
    assert((2 * (w / 2) - w) * k == 0) by (nonlinear_arith)
        requires
            2 * (w / 2) - w == 0,
    ;
    assert(2 * (h / 2) - h == 0);
    assert((2 * (h / 2) - h) * k == 0) by (nonlinear_arith)
        requires
            2 * (h / 2) - h == 0,
    ;
    vstd::arithmetic::div_mod::lemma_div_of0(d);
}

/// Zooming in and then out is a round trip on the zoom factor, whatever
/// recentering the two clicks perform in between (the center is
/// overwritten by each click, not reversed).
pub proof fn lemma_zoom_round_trip(v: ViewState, re1: int, im1: int, re2: int, im2: int)
    requires
        v.wf(),
        v.zoom_exp < ZOOM_EXP_MAX,
    ensures
        zoomed_out(recentered(zoomed_in(recentered(v, re1, im1)), re2, im2)).zoom_exp
            == v.zoom_exp,
{
}

/// Compute `2^e`.
fn pow2_u64(e: u32) -> (r: u64)
    requires
        e <= 48,
    ensures
        r as nat == pow2(e as nat),
        1 <= r <= 281474976710656,
{
    let mut r: u64 = 1;
    let mut i: u32 = 0;
    proof {
        lemma2_to64();
    }
    while i < e
        invariant
            i <= e,
            e <= 48,
            r as nat == pow2(i as nat),
            1 <= r <= 281474976710656,
        decreases e - i,
    {
        proof {
            if i + 1 < 48 {
                lemma_pow2_strictly_increases((i + 1) as nat, 48);
            }
            lemma2_to64_rest();
            assert(pow2((i + 1) as nat) == 2 * pow2(i as nat)) by {
                vstd::arithmetic::power2::lemma_pow2_unfold((i + 1) as nat);
            }
        }
        r = r * 2;
        i = i + 1;
    }
    r
}

} // verus!
