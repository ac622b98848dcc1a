//! The color mapper: an escape count `n` below the iteration cap is
//! turned into a hue `t * 360` with `t = n / max`, saturation `4/5`, and
//! value `min(2t, 1)`, then converted from HSV to RGB. All intermediate
//! values are exact rationals over the denominator `5 * max^2`; each
//! channel is brought to scale `COLOR_ONE` with one truncating division.

use vstd::prelude::*;

verus! {

/// Full intensity of one color channel: a channel value `c` stands for
/// the real number `c / COLOR_ONE` in `[0, 1]`.
pub const COLOR_ONE: u32 = 65536;

/// An RGBA color, each channel an integer in `[0, COLOR_ONE]`.
#[derive(Clone, Copy, PartialEq, Eq, Structural, Debug)]
pub struct Color {
    pub r: u32,
    pub g: u32,
    pub b: u32,
    pub a: u32,
}

/// Opaque black, the color of points presumed inside the set.
pub open spec fn black() -> Color {
    Color { r: 0, g: 0, b: 0, a: COLOR_ONE }
}

/// Numerator of the HSV value `v = min(2t, 1)` over the denominator `max`.
pub open spec fn vee_num(n: int, max: int) -> int {
    if 2 * n < max {
        2 * n
    } else {
        max
    }
}

/// Which of the six 60-degree hue sectors `n` falls in.
pub open spec fn sector(n: int, max: int) -> int {
    (6 * n) / max
}

/// Numerator, over the denominator `max`, of the position of the hue
/// within its sector.
pub open spec fn sector_frac(n: int, max: int) -> int {
    (6 * n) % max
}

/// Numerator of the chroma `c = v * 4/5` over the denominator `5 * max^2`.
pub open spec fn chroma_num(n: int, max: int) -> int {
    4 * vee_num(n, max) * max
}

/// Numerator of the secondary component `x = c * (1 - |((hue/60) mod 2) - 1|)`
/// over the denominator `5 * max^2`.
pub open spec fn mid_num(n: int, max: int) -> int {
    if sector(n, max) % 2 == 0 {
        4 * vee_num(n, max) * sector_frac(n, max)
    } else {
        4 * vee_num(n, max) * (max - sector_frac(n, max))
    }
}

/// Numerator of the additive term `m = v - c = v/5` over the denominator
/// `5 * max^2`.
pub open spec fn base_num(n: int, max: int) -> int {
    vee_num(n, max) * max
}

/// A channel at scale `COLOR_ONE`: the exact rational `num / (5 * max^2)`
/// truncated once.
pub open spec fn channel(num: int, max: int) -> int {
    (num * (COLOR_ONE as int)) / (5 * max * max)
}

/// The chroma, secondary and zero components distributed over the three
/// channels according to the hue sector, before `m` is added.
pub open spec fn rgb_nums(n: int, max: int) -> (int, int, int) {
    let c = chroma_num(n, max);
    let x = mid_num(n, max);
    let s = sector(n, max);
    if s == 0 {
        (c, x, 0)
    } else if s == 1 {
        (x, c, 0)
    } else if s == 2 {
        (0, c, x)
    } else if s == 3 {
        (0, x, c)
    } else if s == 4 {
        (x, 0, c)
    } else {
        (c, 0, x)
    }
}

/// The color of escape count `n` under iteration cap `max`: black at the
/// cap, otherwise the HSV-derived color, fully opaque.
pub open spec fn color_spec(n: int, max: int) -> Color {
    if n == max {
        black()
    } else {
        let nums = rgb_nums(n, max);
        Color {
            r: channel(nums.0 + base_num(n, max), max) as u32,
            g: channel(nums.1 + base_num(n, max), max) as u32,
            b: channel(nums.2 + base_num(n, max), max) as u32,
            a: COLOR_ONE,
        }
    }
}

/// One color channel: bring the exact rational `num / (5 * max^2)` to
/// scale `COLOR_ONE`.
fn chan(num: u128, max: u64) -> (c: u32)
    requires
        1 <= max,
        max <= 4294967295,
        num as int <= 5 * (max as int) * (max as int),
    ensures
        c == channel(num as int, max as int),
        c <= COLOR_ONE,
{
    proof {
        assert(4 <= (5 * (max as int)) * (max as int) <= 92233720368547758080) by (nonlinear_arith)
            requires
                1 <= max <= 4294967295int,
        ;
    }
    let den: u128 = (5 * (max as u128)) * (max as u128);
    let q: u128 = (num * 65536) / den;
    proof {
        vstd::arithmetic::div_mod::lemma_div_is_ordered(
            (num as int) * 65536,
            65536 * (den as int),
            den as int,
        );
        vstd::arithmetic::div_mod::lemma_div_by_multiple(65536, den as int);
        assert(q <= 65536);
        assert(COLOR_ONE == 65536u32);
    }
    q as u32
}

/// Map an escape count to a color: black at the iteration cap, otherwise
/// a fully opaque HSV-derived color whose channels all stay in
/// `[0, COLOR_ONE]`.
pub fn color_from_iter(iter: u32, max_iter: u32) -> (c: Color)
    requires
        1 <= max_iter,
        iter <= max_iter,
    ensures
        c == color_spec(iter as int, max_iter as int),
        iter == max_iter ==> c == black(),
        c.r <= COLOR_ONE,
        c.g <= COLOR_ONE,
        c.b <= COLOR_ONE,
        c.a == COLOR_ONE,
{
    if iter == max_iter {
        return Color { r: 0, g: 0, b: 0, a: COLOR_ONE };
    }
    let n: u64 = iter as u64;
    let max: u64 = max_iter as u64;
    let six_n: u64 = 6 * n;
    let sec: u64 = six_n / max;
    let rem: u64 = six_n % max;
    let two_n: u64 = 2 * n;
    let vee: u64 = if two_n < max {
        two_n
    } else {
        max
    };
    let veew: u128 = vee as u128;
    let maxw: u128 = max as u128;
    let remw: u128 = rem as u128;
    proof {
        assert((4 * veew) * maxw <= 73786976294838206464 && veew * maxw <= 18446744073709551616
            && (4 * veew) * remw <= 73786976294838206464 && (4 * veew) * (maxw - remw)
            <= 73786976294838206464 && (4 * veew) * maxw + veew * maxw <= (5 * maxw) * maxw && (4
            * veew) * remw + veew * maxw <= (5 * maxw) * maxw && (4 * veew) * (maxw - remw) + veew
            * maxw <= (5 * maxw) * maxw && veew * maxw <= (5 * maxw) * maxw) by (nonlinear_arith)
            requires
                veew <= maxw,
                remw < maxw,
                maxw <= 4294967295u128,
        ;
    }
    let cnum: u128 = (4 * veew) * maxw;
    let mnum: u128 = veew * maxw;
    let xnum: u128 = if sec % 2 == 0 {
        (4 * veew) * remw
    } else {
        (4 * veew) * (maxw - remw)
    };
    let nums: (u128, u128, u128) = if sec == 0 {
        (cnum, xnum, 0)
    } else if sec == 1 {
        (xnum, cnum, 0)
    } else if sec == 2 {
        (0, cnum, xnum)
    } else if sec == 3 {
        (0, xnum, cnum)
    } else if sec == 4 {
        (xnum, 0, cnum)
    } else {
        (cnum, 0, xnum)
    };
    let r: u32 = chan(nums.0 + mnum, max);
    let g: u32 = chan(nums.1 + mnum, max);
    let b: u32 = chan(nums.2 + mnum, max);
    Color { r, g, b, a: COLOR_ONE }
}

} // verus!
