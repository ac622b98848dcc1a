//! Fixed-point plane coordinates: signed 64-bit integers counted in units
//! of `1 / COORD_ONE`, with truncating division as the single rounding step.

use vstd::prelude::*;

verus! {

/// One complex-plane unit: a coordinate `c` stands for the real number
/// `c / COORD_ONE` (this constant is 2^32).
pub const COORD_ONE: i64 = 4294967296;

/// Largest magnitude (2^56) a plane coordinate may reach; every coordinate
/// the view transform produces stays within it.
pub const COORD_LIMIT: i64 = 72057594037927936;

/// Division of `p` by `d` rounded toward zero, for `d > 0`.
pub open spec fn tdiv(p: int, d: int) -> int
    recommends
        d > 0,
{
    if p >= 0 {
        p / d
    } else {
        -((-p) / d)
    }
}

/// Divide `num` by `den`, rounding toward zero.
pub fn trunc_div(num: i128, den: u128) -> (r: i64)
    requires
        0 < den,
        i128::MIN < num,
        -(i64::MAX as int) <= tdiv(num as int, den as int) <= i64::MAX as int,
    ensures
        r as int == tdiv(num as int, den as int),
{
    if num >= 0 {
        let q: u128 = (num as u128) / den;
        q as i64
    } else {
        let q: u128 = ((-num) as u128) / den;
        -(q as i64)
    }
}

/// Truncating division keeps a symmetric bound: if `|p| <= b * d` then
/// `|tdiv(p, d)| <= b`.
pub proof fn lemma_tdiv_bound(p: int, d: int, b: int)
    requires
        d > 0,
        b >= 0,
        -(b * d) <= p <= b * d,
    ensures
        -b <= tdiv(p, d) <= b,
{
    if p >= 0 {
        vstd::arithmetic::div_mod::lemma_div_pos_is_pos(p, d);
        vstd::arithmetic::div_mod::lemma_div_is_ordered(p, b * d, d);
        vstd::arithmetic::div_mod::lemma_div_by_multiple(b, d);
    } else {
        vstd::arithmetic::div_mod::lemma_div_pos_is_pos(-p, d);
        vstd::arithmetic::div_mod::lemma_div_is_ordered(-p, b * d, d);
        vstd::arithmetic::div_mod::lemma_div_by_multiple(b, d);
    }
}

/// Truncating division is monotone in the dividend.
pub proof fn lemma_tdiv_mono(p1: int, p2: int, d: int)
    requires
        d > 0,
        p1 <= p2,
    ensures
        tdiv(p1, d) <= tdiv(p2, d),
{
    if p1 >= 0 {
        vstd::arithmetic::div_mod::lemma_div_is_ordered(p1, p2, d);
    } else if p2 < 0 {
        vstd::arithmetic::div_mod::lemma_div_is_ordered(-p2, -p1, d);
    } else {
        vstd::arithmetic::div_mod::lemma_div_pos_is_pos(-p1, d);
        vstd::arithmetic::div_mod::lemma_div_pos_is_pos(p2, d);
    }
}

} // verus!
