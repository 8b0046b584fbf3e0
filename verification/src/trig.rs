//! Fixed-point trigonometry for the CIEDE2000 formula. Angles are in
//! deci-degrees (tenths of a degree); sine and cosine results are scaled by
//! 10^4 and clamped to [-10^4, 10^4]; the Gaussian is scaled by 10^4. Each
//! exec function returns exactly the value of its spec-mode mirror, so the
//! color-difference contract pins every bit of the computation down.
use vstd::prelude::*;

verus! {

/// Clamp a scaled trigonometric value into the representable range of
/// [-1, 1] at scale 10^4.
pub open spec fn clamp_e4(v: int) -> int {
    if v > 10000 {
        10000
    } else if v < -10000 {
        -10000
    } else {
        v
    }
}

/// Micro-radians of an angle given in deci-degrees: `x * pi / 1800 * 10^6`.
pub open spec fn rad6_of_deg10(x: int) -> int {
    (x * 1745329) / 1000
}

/// Taylor polynomial for sine on [0, pi/4], argument in micro-radians,
/// result scaled by 10^4.
pub open spec fn sin_poly(r6: int) -> int {
    let r2 = r6 * r6;
    let r3 = r2 * r6;
    let r5 = r3 * r2;
    r6 / 100 - r3 / 600000000000000 + r5 / 12000000000000000000000000000
}

/// Taylor polynomial for cosine on [0, pi/4], argument in micro-radians,
/// result scaled by 10^4.
pub open spec fn cos_poly(r6: int) -> int {
    let r2 = r6 * r6;
    let r4 = r2 * r2;
    let r6p = r4 * r2;
    10000 - r2 / 200000000 + r4 / 2400000000000000000000 - r6p
        / 72000000000000000000000000000000000
}

/// Sine on the first quadrant [0, 900] deci-degrees, by octant reduction.
pub open spec fn sin_quadrant(x: int) -> int {
    if x <= 450 {
        sin_poly(rad6_of_deg10(x))
    } else {
        cos_poly(rad6_of_deg10(900 - x))
    }
}

/// Cosine on the first quadrant [0, 900] deci-degrees, by octant reduction.
pub open spec fn cos_quadrant(x: int) -> int {
    if x <= 450 {
        cos_poly(rad6_of_deg10(x))
    } else {
        sin_poly(rad6_of_deg10(900 - x))
    }
}

/// Sine of an angle in deci-degrees, scaled by 10^4, for any sign of `d`.
pub open spec fn sin_deg10(d: int) -> int {
    let m = d % 3600;
    if m <= 900 {
        clamp_e4(sin_quadrant(m))
    } else if m <= 1800 {
        clamp_e4(sin_quadrant(1800 - m))
    } else if m <= 2700 {
        -clamp_e4(sin_quadrant(m - 1800))
    } else {
        -clamp_e4(sin_quadrant(3600 - m))
    }
}

/// Cosine of an angle in deci-degrees, scaled by 10^4, for any sign of `d`.
pub open spec fn cos_deg10(d: int) -> int {
    let m = d % 3600;
    if m <= 900 {
        clamp_e4(cos_quadrant(m))
    } else if m <= 1800 {
        -clamp_e4(cos_quadrant(1800 - m))
    } else if m <= 2700 {
        -clamp_e4(cos_quadrant(m - 1800))
    } else {
        clamp_e4(cos_quadrant(3600 - m))
    }
}

/// The clamped cosine always lies within one unit at scale 10^4.
pub proof fn lemma_cos_deg10_bound(d: int)
    ensures
        -10000 <= cos_deg10(d) <= 10000,
{
}

/// The clamped sine always lies within one unit at scale 10^4.
pub proof fn lemma_sin_deg10_bound(d: int)
    ensures
        -10000 <= sin_deg10(d) <= 10000,
{
}

/// Exec clamp matching `clamp_e4`.
fn clamp_e4_exec(v: i128) -> (r: i64)
    requires
        -100000000 <= v <= 100000000,
    ensures
        r as int == clamp_e4(v as int),
{
    if v > 10000 {
        10000
    } else if v < -10000 {
        -10000
    } else {
        v as i64
    }
}

/// Sine polynomial on the first octant; exact mirror of `sin_poly`.
fn sin_poly_exec(r6: i128) -> (r: i128)
    requires
        0 <= r6 <= 785399,
    ensures
        r as int == sin_poly(r6 as int),
        -100000000 <= r <= 100000000,
{
    proof {
        assert(r6 * r6 <= 616851589201i128) by (nonlinear_arith)
            requires
                0 <= r6 <= 785399,
        ;
    }
    let r2 = r6 * r6;
    proof {
        assert(0 <= r2 * r6 <= 484474621306876199i128) by (nonlinear_arith)
            requires
                0 <= r2 <= 616851589201i128,
                0 <= r6 <= 785399,
        ;
    }
    let r3 = r2 * r6;
    proof {
        assert(0 <= r3 * r2 <= 298848940080699238862112326999i128)
            by (nonlinear_arith)
            requires
                0 <= r3 <= 484474621306876199i128,
                0 <= r2 <= 616851589201i128,
        ;
    }
    let r5 = r3 * r2;
    let t1 = r6 / 100;
    let t3 = r3 / 600000000000000;
    let t5 = r5 / 12000000000000000000000000000;
    t1 - t3 + t5
}

/// Cosine polynomial on the first octant; exact mirror of `cos_poly`.
fn cos_poly_exec(r6: i128) -> (r: i128)
    requires
        0 <= r6 <= 785399,
    ensures
        r as int == cos_poly(r6 as int),
        -100000000 <= r <= 100000000,
{
    proof {
        assert(r6 * r6 <= 616851589201i128) by (nonlinear_arith)
            requires
                0 <= r6 <= 785399,
        ;
    }
    let r2 = r6 * r6;
    proof {
        assert(0 <= r2 * r2 <= 380505883099799259818401i128) by (nonlinear_arith)
            requires
                0 <= r2 <= 616851589201i128,
        ;
    }
    let r4 = r2 * r2;
    proof {
        assert(0 <= r4 * r2 <= 234715658690441101503064159512687601i128)
            by (nonlinear_arith)
            requires
                0 <= r4 <= 380505883099799259818401i128,
                0 <= r2 <= 616851589201i128,
        ;
    }
    let r6p = r4 * r2;
    let t2 = r2 / 200000000;
    let t4 = r4 / 2400000000000000000000;
    let t6 = r6p / 72000000000000000000000000000000000;
    10000 - t2 + t4 - t6
}

/// Micro-radians from deci-degrees; exact mirror of `rad6_of_deg10`.
fn rad6_exec(x: i64) -> (r: i128)
    requires
        0 <= x <= 450,
    ensures
        r as int == rad6_of_deg10(x as int),
        0 <= r <= 785399,
{
    let v = (x as i128) * 1745329;
    v / 1000
}

/// First-quadrant sine; exact mirror of `sin_quadrant`.
fn sin_quadrant_exec(x: i64) -> (r: i128)
    requires
        0 <= x <= 900,
    ensures
        r as int == sin_quadrant(x as int),
        -100000000 <= r <= 100000000,
{
    if x <= 450 {
        sin_poly_exec(rad6_exec(x))
    } else {
        cos_poly_exec(rad6_exec(900 - x))
    }
}

/// First-quadrant cosine; exact mirror of `cos_quadrant`.
fn cos_quadrant_exec(x: i64) -> (r: i128)
    requires
        0 <= x <= 900,
    ensures
        r as int == cos_quadrant(x as int),
        -100000000 <= r <= 100000000,
{
    if x <= 450 {
        cos_poly_exec(rad6_exec(x))
    } else {
        sin_poly_exec(rad6_exec(900 - x))
    }
}

/// Normalize an angle in deci-degrees to [0, 3600), matching the
/// mathematical (Euclidean) remainder of the spec mirrors.
fn norm_deg10(d: i64) -> (m: i64)
    requires
        -72000 <= d <= 10000000,
    ensures
        m as int == d as int % 3600,
        0 <= m < 3600,
{
    let shifted = d + 72000;
    let m = shifted % 3600;
    proof {
        vstd::arithmetic::div_mod::lemma_mod_multiples_vanish(20, d as int, 3600);
        assert(3600 * 20 + d as int == shifted as int);
    }
    m
}

/// Sine in deci-degrees at scale 10^4; returns exactly `sin_deg10(d)`.
pub fn sin_deg10_exec(d: i64) -> (r: i64)
    requires
        -72000 <= d <= 10000000,
    ensures
        r as int == sin_deg10(d as int),
        -10000 <= r <= 10000,
{
    let m = norm_deg10(d);
    if m <= 900 {
        clamp_e4_exec(sin_quadrant_exec(m))
    } else if m <= 1800 {
        clamp_e4_exec(sin_quadrant_exec(1800 - m))
    } else if m <= 2700 {
        let v = clamp_e4_exec(sin_quadrant_exec(m - 1800));
        -v
    } else {
        let v = clamp_e4_exec(sin_quadrant_exec(3600 - m));
        -v
    }
}

/// Cosine in deci-degrees at scale 10^4; returns exactly `cos_deg10(d)`.
pub fn cos_deg10_exec(d: i64) -> (r: i64)
    requires
        -72000 <= d <= 10000000,
    ensures
        r as int == cos_deg10(d as int),
        -10000 <= r <= 10000,
{
    let m = norm_deg10(d);
    if m <= 900 {
        clamp_e4_exec(cos_quadrant_exec(m))
    } else if m <= 1800 {
        let v = clamp_e4_exec(cos_quadrant_exec(1800 - m));
        -v
    } else if m <= 2700 {
        let v = clamp_e4_exec(cos_quadrant_exec(m - 1800));
        -v
    } else {
        clamp_e4_exec(cos_quadrant_exec(3600 - m))
    }
}

/// Arctangent of `n/d` for `0 <= n <= d`, in deci-degrees: the quarter-circle
/// polynomial approximation `45 q + 15.6417 q (1 - q)` with `q = n/d`.
pub open spec fn atan_ratio_deg10(n: int, d: int) -> int {
    let q = (n * 1000000) / d;
    (450 * q) / 1000000 + (156417 * q * (1000000 - q)) / 1000000000000000
}

/// Exec arctangent of a ratio; exact mirror of `atan_ratio_deg10`.
fn atan_ratio_exec(n: i64, d: i64) -> (r: i64)
    requires
        0 <= n <= d,
        1 <= d <= 2000000,
    ensures
        r as int == atan_ratio_deg10(n as int, d as int),
        0 <= r <= 900,
{
    let q = ((n as i128) * 1000000) / (d as i128);
    proof {
        assert((n as i128) * 1000000 <= (d as i128) * 1000000) by (nonlinear_arith)
            requires
                n <= d,
        ;
        vstd::arithmetic::div_mod::lemma_div_is_ordered(
            (n as i128) * 1000000,
            (d as i128) * 1000000,
            d as int,
        );
        vstd::arithmetic::div_mod::lemma_div_by_multiple(1000000, d as int);
        assert(1000000 * (d as int) == (d as int) * 1000000) by (nonlinear_arith);
        vstd::arithmetic::div_mod::lemma_div_pos_is_pos((n as i128) * 1000000, d as int);
        assert((n as i128) * 1000000 >= 0) by (nonlinear_arith)
            requires
                n >= 0,
        ;
    }
    proof {
        vstd::arithmetic::div_mod::lemma_div_pos_is_pos(450 * (q as int), 1000000);
        vstd::arithmetic::div_mod::lemma_div_is_ordered(450 * (q as int), 450000000, 1000000);
    }
    let t1 = (450 * q) / 1000000;
    proof {
        assert(0 <= 156417 * q * (1000000 - q) <= 39104250000000000i128) by (nonlinear_arith)
            requires
                0 <= q <= 1000000,
        ;
        vstd::arithmetic::div_mod::lemma_div_pos_is_pos(
            156417 * (q as int) * (1000000 - q as int),
            1000000000000000,
        );
        vstd::arithmetic::div_mod::lemma_div_is_ordered(
            156417 * (q as int) * (1000000 - q as int),
            39104250000000000,
            1000000000000000,
        );
    }
    let t2 = (156417 * q * (1000000 - q)) / 1000000000000000;
    (t1 + t2) as i64
}

/// Absolute value.
pub open spec fn abs1(a: int) -> int {
    if a >= 0 {
        a
    } else {
        -a
    }
}

/// Hue angle of the point `(x, y)` in deci-degrees in [0, 3600): a
/// fixed-point `atan2(y, x)` wrapped to a full turn, with the origin mapped
/// to zero.
pub open spec fn atan2_deg10(y: int, x: int) -> int {
    if x == 0 && y == 0 {
        0
    } else {
        let ax = abs1(x);
        let ay = abs1(y);
        let base = if ay <= ax {
            atan_ratio_deg10(ay, ax)
        } else {
            900 - atan_ratio_deg10(ax, ay)
        };
        if x >= 0 && y >= 0 {
            base
        } else if x < 0 && y >= 0 {
            1800 - base
        } else if x < 0 {
            1800 + base
        } else if base == 0 {
            0
        } else {
            3600 - base
        }
    }
}

/// Exec hue angle; exact mirror of `atan2_deg10`.
pub fn atan2_deg10_exec(y: i64, x: i64) -> (r: i64)
    requires
        -2000000 <= y <= 2000000,
        -2000000 <= x <= 2000000,
    ensures
        r as int == atan2_deg10(y as int, x as int),
        0 <= r < 3600,
{
    if x == 0 && y == 0 {
        return 0;
    }
    let ax = if x >= 0 {
        x
    } else {
        -x
    };
    let ay = if y >= 0 {
        y
    } else {
        -y
    };
    let base = if ay <= ax {
        atan_ratio_exec(ay, ax)
    } else {
        900 - atan_ratio_exec(ax, ay)
    };
    if x >= 0 && y >= 0 {
        base
    } else if x < 0 && y >= 0 {
        1800 - base
    } else if x < 0 {
        1800 + base
    } else if base == 0 {
        0
    } else {
        3600 - base
    }
}

/// `10^4 * exp(-(u/250)^2)` approximated by `(1 - t/64)^64` with
/// `t = (u/250)^2`, computed by six squarings at scale 10^6; zero once the
/// exponent argument exceeds 12.
pub open spec fn gauss_e4(u: int) -> int {
    let t = u * u * 16;
    if t > 12000000 {
        0
    } else {
        let b0 = 1000000 - t / 64;
        let b1 = (b0 * b0) / 1000000;
        let b2 = (b1 * b1) / 1000000;
        let b3 = (b2 * b2) / 1000000;
        let b4 = (b3 * b3) / 1000000;
        let b5 = (b4 * b4) / 1000000;
        let b6 = (b5 * b5) / 1000000;
        b6 / 100
    }
}

/// One squaring step at scale 10^6.
fn gauss_step(b: i64) -> (r: i64)
    requires
        0 <= b <= 1000000,
    ensures
        r as int == (b as int * b as int) / 1000000,
        0 <= r <= 1000000,
{
    proof {
        assert(0 <= b * b <= 1000000000000i64) by (nonlinear_arith)
            requires
                0 <= b <= 1000000,
        ;
        vstd::arithmetic::div_mod::lemma_div_is_ordered(
            b as int * b as int,
            1000000000000,
            1000000,
        );
        vstd::arithmetic::div_mod::lemma_div_pos_is_pos(b as int * b as int, 1000000);
    }
    (b * b) / 1000000
}

/// Exec Gaussian; exact mirror of `gauss_e4`.
pub fn gauss_e4_exec(u: i64) -> (r: i64)
    requires
        -20000 <= u <= 20000,
    ensures
        r as int == gauss_e4(u as int),
        0 <= r <= 10000,
{
    proof {
        assert(0 <= u * u * 16 <= 6400000000i64) by (nonlinear_arith)
            requires
                -20000 <= u <= 20000,
        ;
    }
    let t = u * u * 16;
    if t > 12000000 {
        0
    } else {
        let b0 = 1000000 - t / 64;
        proof {
            vstd::arithmetic::div_mod::lemma_div_pos_is_pos(t as int, 64);
            vstd::arithmetic::div_mod::lemma_div_is_ordered(t as int, 12000000, 64);
        }
        let b1 = gauss_step(b0);
        let b2 = gauss_step(b1);
        let b3 = gauss_step(b2);
        let b4 = gauss_step(b3);
        let b5 = gauss_step(b4);
        let b6 = gauss_step(b5);
        proof {
            vstd::arithmetic::div_mod::lemma_div_pos_is_pos(b6 as int, 100);
            vstd::arithmetic::div_mod::lemma_div_is_ordered(b6 as int, 1000000, 100);
        }
        b6 / 100
    }
}

} // verus!
