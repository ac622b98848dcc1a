//! The escape-time evaluator: iterate `z <- z^2 + c` from `z = 0` and
//! count the steps taken before `|z|^2` leaves the escape radius, capped
//! at an iteration limit. Reaching the cap marks the point as presumed
//! inside the set.

use vstd::prelude::*;
use crate::fixed::{COORD_ONE, COORD_LIMIT, tdiv, trunc_div, lemma_tdiv_bound};

verus! {

/// The squared escape radius (the real value 4.0) at scale `COORD_ONE^2`.
pub const ESCAPE_SQ: i128 = 73786976294838206464;

/// Squared magnitude of the fixed-point complex number `(zr, zi)`,
/// at scale `COORD_ONE^2`.
pub open spec fn mag_sq(zr: int, zi: int) -> int {
    zr * zr + zi * zi
}

/// Real part of `z^2 + c` in fixed point, each product truncated back to
/// scale `COORD_ONE`.
pub open spec fn step_re(zr: int, zi: int, cr: int) -> int {
    tdiv(zr * zr, COORD_ONE as int) - tdiv(zi * zi, COORD_ONE as int) + cr
}

/// Imaginary part of `z^2 + c` in fixed point.
pub open spec fn step_im(zr: int, zi: int, ci: int) -> int {
    tdiv(2 * (zr * zi), COORD_ONE as int) + ci
}

/// Number of iterations `z <- z^2 + c` performed from `z = (zr, zi)`
/// before `|z|^2` exceeds the escape radius, capped at `fuel`.
pub open spec fn escape_steps(zr: int, zi: int, cr: int, ci: int, fuel: nat) -> nat
    decreases fuel,
{
    if fuel == 0 {
        0
    } else if mag_sq(zr, zi) > ESCAPE_SQ as int {
        0
    } else {
        1 + escape_steps(step_re(zr, zi, cr), step_im(zr, zi, ci), cr, ci, (fuel - 1) as nat)
    }
}

/// The escape-time count of the point `c = (cr, ci)`, starting from `z = 0`.
pub open spec fn escape_time_spec(cr: int, ci: int, max_iter: nat) -> nat {
    escape_steps(0, 0, cr, ci, max_iter)
}

proof fn lemma_origin_steps(fuel: nat)
    ensures
        escape_steps(0, 0, 0, 0, fuel) == fuel,
    decreases fuel,
{
    if fuel > 0 {
        assert(step_re(0, 0, 0) == 0);
        assert(step_im(0, 0, 0) == 0);
        lemma_origin_steps((fuel - 1) as nat);
    }
}

/// The origin never escapes: iterating from `c = 0` keeps `z` at `0`, so
/// the count always reaches the iteration cap.
pub proof fn lemma_escape_origin(max_iter: nat)
    ensures
        escape_time_spec(0, 0, max_iter) == max_iter,
{
    lemma_origin_steps(max_iter);
}

proof fn lemma_escape_steps_prefix(zr: int, zi: int, cr: int, ci: int, f1: nat, f2: nat)
    requires
        f1 <= f2,
        escape_steps(zr, zi, cr, ci, f1) < f1,
    ensures
        escape_steps(zr, zi, cr, ci, f2) == escape_steps(zr, zi, cr, ci, f1),
    decreases f1,
{
    if f1 > 0 && mag_sq(zr, zi) <= ESCAPE_SQ as int {
        lemma_escape_steps_prefix(
            step_re(zr, zi, cr),
            step_im(zr, zi, ci),
            cr,
            ci,
            (f1 - 1) as nat,
            (f2 - 1) as nat,
        );
    }
}

/// A point that escapes within the iteration cap keeps the same count
/// under any larger cap: the divergence prefix is stable.
pub proof fn lemma_escape_prefix(cr: int, ci: int, m1: nat, m2: nat)
    requires
        m1 <= m2,
        escape_time_spec(cr, ci, m1) < m1,
    ensures
        escape_time_spec(cr, ci, m2) == escape_time_spec(cr, ci, m1),
{
    lemma_escape_steps_prefix(0, 0, cr, ci, m1, m2);
}

/// Escape-time evaluation of the point `(c_re, c_im)`.
pub fn escape_time(c_re: i64, c_im: i64, max_iter: u32) -> (n: u32)
    requires
        -COORD_LIMIT <= c_re <= COORD_LIMIT,
        -COORD_LIMIT <= c_im <= COORD_LIMIT,
    ensures
        n == escape_time_spec(c_re as int, c_im as int, max_iter as nat),
        n <= max_iter,
{
    let mut zr: i64 = 0;
    let mut zi: i64 = 0;
    let mut iter: u32 = 0;
    let mut done: bool = false;

    while !done && iter < max_iter
        invariant
            iter <= max_iter,
            -COORD_LIMIT <= c_re <= COORD_LIMIT,
            -COORD_LIMIT <= c_im <= COORD_LIMIT,
            -(COORD_LIMIT + 8 * COORD_ONE) <= zr as int <= COORD_LIMIT + 8 * COORD_ONE,
            -(COORD_LIMIT + 8 * COORD_ONE) <= zi as int <= COORD_LIMIT + 8 * COORD_ONE,
            escape_time_spec(c_re as int, c_im as int, max_iter as nat) == iter + (if done {
                0int
            } else {
                escape_steps(
                    zr as int,
                    zi as int,
                    c_re as int,
                    c_im as int,
                    (max_iter - iter) as nat,
                ) as int
            }),
            done ==> mag_sq(zr as int, zi as int) > ESCAPE_SQ as int,
        decreases (max_iter - iter) + (if done { 0int } else { 1int }),
    {
        let zr_w: i128 = zr as i128;
        let zi_w: i128 = zi as i128;
        proof {
            assert(0 <= zr_w * zr_w <= 72057628397666304i128 * 72057628397666304i128)
                by (nonlinear_arith)
                requires
                    -72057628397666304i128 <= zr_w <= 72057628397666304i128,
            ;
            assert(0 <= zi_w * zi_w <= 72057628397666304i128 * 72057628397666304i128)
                by (nonlinear_arith)
                requires
                    -72057628397666304i128 <= zi_w <= 72057628397666304i128,
            ;
            assert(-(72057628397666304i128 * 72057628397666304i128) <= zr_w * zi_w
                <= 72057628397666304i128 * 72057628397666304i128) by (nonlinear_arith)
                requires
                    -72057628397666304i128 <= zr_w <= 72057628397666304i128,
                    -72057628397666304i128 <= zi_w <= 72057628397666304i128,
            ;
        }
        let m_rr: i128 = zr_w * zr_w;
        let m_ii: i128 = zi_w * zi_w;
        let m: i128 = m_rr + m_ii;
        if m > ESCAPE_SQ {
            done = true;
        } else {
            proof {
                assert(2 * (zr_w * zi_w) <= zr_w * zr_w + zi_w * zi_w && -(zr_w * zr_w + zi_w
                    * zi_w) <= 2 * (zr_w * zi_w)) by (nonlinear_arith);
                lemma_tdiv_bound(m_rr as int, COORD_ONE as int, 4 * COORD_ONE as int);
                lemma_tdiv_bound(m_ii as int, COORD_ONE as int, 4 * COORD_ONE as int);
                lemma_tdiv_bound(
                    2 * (zr_w as int * zi_w as int),
                    COORD_ONE as int,
                    4 * COORD_ONE as int,
                );
            }
            let cross: i128 = 2 * (zr_w * zi_w);
            let sq_re: i64 = trunc_div(m_rr, 4294967296u128);
            let sq_im: i64 = trunc_div(m_ii, 4294967296u128);
            let mix: i64 = trunc_div(cross, 4294967296u128);
            let new_zr: i64 = sq_re - sq_im + c_re;
            let new_zi: i64 = mix + c_im;
            proof {
                let fuel: nat = (max_iter - iter) as nat;
                assert(new_zr as int == step_re(zr as int, zi as int, c_re as int));
                assert(new_zi as int == step_im(zr as int, zi as int, c_im as int));
                assert(escape_steps(zr as int, zi as int, c_re as int, c_im as int, fuel) == 1
                    + escape_steps(
                    new_zr as int,
                    new_zi as int,
                    c_re as int,
                    c_im as int,
                    (fuel - 1) as nat,
                ));
            }
            zr = new_zr;
            zi = new_zi;
            iter = iter + 1;
        }
    }
    proof {
        if !done {
            assert(escape_steps(zr as int, zi as int, c_re as int, c_im as int, 0nat) == 0);
        }
    }
    iter
}

} // verus!
