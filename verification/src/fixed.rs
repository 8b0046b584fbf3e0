//! Fixed-point integer primitives for the color engine: floor square and cube
//! roots, the floor of `c^(12/5)` used by sRGB companding, and truncating
//! (round-toward-zero) division. Each exec function pins its result down to
//! the unique integer satisfying a bracket, so callers can reason about the
//! exact value.
use vstd::prelude::*;

verus! {

/// `r` is the floor of the real square root of `x`.
pub open spec fn is_sqrt_floor(x: int, r: int) -> bool {
    0 <= r && r * r <= x && x < (r + 1) * (r + 1)
}

/// The floor of the real square root of `x` (meaningful for `x >= 0`).
pub open spec fn sqrt_floor(x: int) -> int {
    choose|r: int| is_sqrt_floor(x, r)
}

pub proof fn lemma_sqrt_floor_unique(x: int, a: int, b: int)
    requires
        is_sqrt_floor(x, a),
        is_sqrt_floor(x, b),
    ensures
        a == b,
{
    if a < b {
        assert((a + 1) * (a + 1) <= b * b) by (nonlinear_arith)
            requires
                0 <= a,
                0 <= b,
                a < b,
        ;
    }
    if b < a {
        assert((b + 1) * (b + 1) <= a * a) by (nonlinear_arith)
            requires
                0 <= a,
                0 <= b,
                b < a,
        ;
    }
}

pub proof fn lemma_sqrt_floor_is(x: int, r: int)
    requires
        is_sqrt_floor(x, r),
    ensures
        sqrt_floor(x) == r,
{
    assert(exists|c: int| is_sqrt_floor(x, c));
    let w = choose|c: int| is_sqrt_floor(x, c);
    lemma_sqrt_floor_unique(x, w, r);
}

pub proof fn lemma_sqrt_floor_bound(x: int, bound: int)
    requires
        is_sqrt_floor(x, sqrt_floor(x)),
        0 <= bound,
        x < (bound + 1) * (bound + 1),
    ensures
        sqrt_floor(x) <= bound,
{
    let r = sqrt_floor(x);
    if r > bound {
        assert((bound + 1) * (bound + 1) <= r * r) by (nonlinear_arith)
            requires
                0 <= bound,
                bound < r,
        ;
    }
}

pub proof fn lemma_sqrt_floor_lower(x: int, bound: int)
    requires
        is_sqrt_floor(x, sqrt_floor(x)),
        0 <= bound,
        bound * bound <= x,
    ensures
        sqrt_floor(x) >= bound,
{
    let r = sqrt_floor(x);
    if r < bound {
        assert(bound * bound >= (r + 1) * (r + 1)) by (nonlinear_arith)
            requires
                0 <= r,
                r < bound,
        ;
    }
}

/// The floor square root exists for every nonnegative argument, so
/// `sqrt_floor` satisfies its bracket.
pub proof fn lemma_sqrt_floor_exists(x: int)
    requires
        0 <= x,
    ensures
        is_sqrt_floor(x, sqrt_floor(x)),
    decreases x,
{
    if x == 0 {
        assert(is_sqrt_floor(0, 0));
        lemma_sqrt_floor_is(0, 0);
    } else {
        lemma_sqrt_floor_exists(x - 1);
        let r = sqrt_floor(x - 1);
        if x < (r + 1) * (r + 1) {
            assert(is_sqrt_floor(x, r));
            lemma_sqrt_floor_is(x, r);
        } else {
            assert(x == (r + 1) * (r + 1));
            assert(x < (r + 2) * (r + 2)) by (nonlinear_arith)
                requires
                    x == (r + 1) * (r + 1),
                    r >= 0,
            ;
            assert(is_sqrt_floor(x, r + 1));
            lemma_sqrt_floor_is(x, r + 1);
        }
    }
}

/// Floor square root by binary search; exact bracket in the contract.
pub fn isqrt(x: u128) -> (r: u64)
    requires
        x < 0x1000000000000000000000000000u128,  // 2^108
    ensures
        is_sqrt_floor(x as int, r as int),
        r as int == sqrt_floor(x as int),
{
    let mut lo: u128 = 0;
    let mut hi: u128 = 0x40000000000000u128;  // 2^54
    proof {
        assert(0x40000000000000u128 * 0x40000000000000u128
            == 0x1000000000000000000000000000) by (nonlinear_arith);
    }
    while lo + 1 < hi
        invariant
            lo < hi,
            hi <= 0x40000000000000u128,
            lo * lo <= x,
            x < hi * hi,
        decreases hi - lo,
    {
        let mid = lo + (hi - lo) / 2;
        proof {
            assert(mid * mid < 0x1000000000000000000000000000u128) by (nonlinear_arith)
                requires
                    mid < 0x40000000000000u128,
            ;
        }
        if mid * mid <= x {
            lo = mid;
        } else {
            hi = mid;
        }
    }
    proof {
        lemma_sqrt_floor_is(x as int, lo as int);
    }
    lo as u64
}

/// `r` is the floor of the real cube root of `x`.
pub open spec fn is_cbrt_floor(x: int, r: int) -> bool {
    0 <= r && r * r * r <= x && x < (r + 1) * (r + 1) * (r + 1)
}

/// The floor of the real cube root of `x` (meaningful for `x >= 0`).
pub open spec fn cbrt_floor(x: int) -> int {
    choose|r: int| is_cbrt_floor(x, r)
}

pub proof fn lemma_cbrt_floor_unique(x: int, a: int, b: int)
    requires
        is_cbrt_floor(x, a),
        is_cbrt_floor(x, b),
    ensures
        a == b,
{
    if a < b {
        assert((a + 1) * (a + 1) * (a + 1) <= b * b * b) by (nonlinear_arith)
            requires
                0 <= a,
                0 <= b,
                a < b,
        ;
    }
    if b < a {
        assert((b + 1) * (b + 1) * (b + 1) <= a * a * a) by (nonlinear_arith)
            requires
                0 <= a,
                0 <= b,
                b < a,
        ;
    }
}

pub proof fn lemma_cbrt_floor_is(x: int, r: int)
    requires
        is_cbrt_floor(x, r),
    ensures
        cbrt_floor(x) == r,
{
    assert(exists|c: int| is_cbrt_floor(x, c));
    let w = choose|c: int| is_cbrt_floor(x, c);
    lemma_cbrt_floor_unique(x, w, r);
}

pub proof fn lemma_cbrt_floor_bound(x: int, bound: int)
    requires
        is_cbrt_floor(x, cbrt_floor(x)),
        0 <= bound,
        x < (bound + 1) * (bound + 1) * (bound + 1),
    ensures
        cbrt_floor(x) <= bound,
{
    let r = cbrt_floor(x);
    if r > bound {
        assert((bound + 1) * (bound + 1) * (bound + 1) <= r * r * r) by (nonlinear_arith)
            requires
                0 <= bound,
                bound < r,
        ;
    }
}

pub proof fn lemma_cbrt_floor_lower(x: int, bound: int)
    requires
        is_cbrt_floor(x, cbrt_floor(x)),
        0 <= bound,
        bound * bound * bound <= x,
    ensures
        cbrt_floor(x) >= bound,
{
    let r = cbrt_floor(x);
    if r < bound {
        assert(bound * bound * bound >= (r + 1) * (r + 1) * (r + 1)) by (nonlinear_arith)
            requires
                0 <= r,
                r < bound,
        ;
    }
}

/// Floor cube root by binary search; exact bracket in the contract.
pub fn icbrt(x: u128) -> (r: u64)
    requires
        x < 0x1000000000000000000000000000u128,  // 2^108
    ensures
        is_cbrt_floor(x as int, r as int),
        r as int == cbrt_floor(x as int),
{
    let mut lo: u128 = 0;
    let mut hi: u128 = 0x1000000000u128;  // 2^36
    proof {
        assert(0x1000000000u128 * 0x1000000000u128 * 0x1000000000u128
            == 0x1000000000000000000000000000) by (nonlinear_arith);
    }
    while lo + 1 < hi
        invariant
            lo < hi,
            hi <= 0x1000000000u128,
            lo * lo * lo <= x,
            x < hi * hi * hi,
        decreases hi - lo,
    {
        let mid = lo + (hi - lo) / 2;
        proof {
            assert(mid * mid < 0x1000000000000000000u128
                && mid * mid * mid < 0x1000000000000000000000000000u128) by (nonlinear_arith)
                requires
                    mid < 0x1000000000u128,
            ;
        }
        if mid * mid * mid <= x {
            lo = mid;
        } else {
            hi = mid;
        }
    }
    proof {
        lemma_cbrt_floor_is(x as int, lo as int);
    }
    lo as u64
}

/// Fifth power, for the companding bracket.
pub open spec fn pow5(r: int) -> int {
    r * r * r * r * r
}

/// Twelfth power, for the companding bracket.
pub open spec fn pow12(c: int) -> int {
    c * c * c * c * c * c * c * c * c * c * c * c
}

/// `r` is the floor of `(c/1000)^(12/5) * 1_000_000`, i.e. the micro-scaled
/// 2.4-power of a milli-scaled operand: `r^5 * 10^6 <= c^12 < (r+1)^5 * 10^6`.
pub open spec fn is_gamma_floor(c: int, r: int) -> bool {
    0 <= r && pow5(r) * 1000000 <= pow12(c) && pow12(c) < pow5(r + 1) * 1000000
}

/// The floor of `1_000_000 * (c/1000)^2.4` (meaningful for `0 <= c <= 1000`).
pub open spec fn gamma_floor(c: int) -> int {
    choose|r: int| is_gamma_floor(c, r)
}

pub proof fn lemma_gamma_floor_unique(c: int, a: int, b: int)
    requires
        is_gamma_floor(c, a),
        is_gamma_floor(c, b),
    ensures
        a == b,
{
    if a < b {
        assert(pow5(a + 1) <= pow5(b)) by (nonlinear_arith)
            requires
                0 <= a,
                0 <= b,
                a < b,
        ;
        assert(pow5(a + 1) * 1000000 <= pow5(b) * 1000000) by (nonlinear_arith)
            requires
                pow5(a + 1) <= pow5(b),
        ;
    }
    if b < a {
        assert(pow5(b + 1) <= pow5(a)) by (nonlinear_arith)
            requires
                0 <= a,
                0 <= b,
                b < a,
        ;
        assert(pow5(b + 1) * 1000000 <= pow5(a) * 1000000) by (nonlinear_arith)
            requires
                pow5(b + 1) <= pow5(a),
        ;
    }
}

pub proof fn lemma_gamma_floor_is(c: int, r: int)
    requires
        is_gamma_floor(c, r),
    ensures
        gamma_floor(c) == r,
{
    assert(exists|w: int| is_gamma_floor(c, w));
    let w = choose|w: int| is_gamma_floor(c, w);
    lemma_gamma_floor_unique(c, w, r);
}

/// Floor of `1_000_000 * (c/1000)^2.4` by binary search on the fifth power.
pub fn gamma_expand(c: u64) -> (r: u64)
    requires
        c <= 1000,
    ensures
        is_gamma_floor(c as int, r as int),
        r as int == gamma_floor(c as int),
        r <= 1000000,
{
    let c128 = c as u128;
    proof {
        assert(c128 * c128 <= 1000000) by (nonlinear_arith)
            requires
                c128 <= 1000,
        ;
    }
    let c2 = c128 * c128;
    proof {
        assert(c2 * c128 <= 1000000000) by (nonlinear_arith)
            requires
                c2 <= 1000000,
                c128 <= 1000,
        ;
    }
    let c3 = c2 * c128;
    proof {
        assert(c3 * c3 <= 1000000000000000000u128) by (nonlinear_arith)
            requires
                c3 <= 1000000000,
        ;
    }
    let c6 = c3 * c3;
    proof {
        assert(c6 * c6 <= 1000000000000000000000000000000000000u128) by (nonlinear_arith)
            requires
                c6 <= 1000000000000000000u128,
        ;
    }
    let c12 = c6 * c6;
    proof {
        assert(c12 == pow12(c as int)) by (nonlinear_arith)
            requires
                c2 == c128 * c128,
                c3 == c2 * c128,
                c6 == c3 * c3,
                c12 == c6 * c6,
                c128 == c,
        ;
    }
    let mut lo: u128 = 0;
    let mut hi: u128 = 1000001;
    proof {
        assert(pow5(1000001) * 1000000 > 1000000000000000000000000000000000000int) by (nonlinear_arith);
    }
    while lo + 1 < hi
        invariant
            lo < hi,
            hi <= 1000001,
            pow5(lo as int) * 1000000 <= c12,
            c12 < pow5(hi as int) * 1000000,
        decreases hi - lo,
    {
        let mid = lo + (hi - lo) / 2;
        proof {
            assert(mid * mid <= 2000000000000u128) by (nonlinear_arith)
                requires
                    mid <= 1100000u128,
            ;
        }
        let m2 = mid * mid;
        proof {
            assert(m2 * m2 <= 4000000000000000000000000u128) by (nonlinear_arith)
                requires
                    m2 <= 2000000000000u128,
            ;
        }
        let m4 = m2 * m2;
        proof {
            assert(m4 * mid <= 5000000000000000000000000000000u128) by (nonlinear_arith)
                requires
                    m4 <= 4000000000000000000000000u128,
                    mid <= 1100000u128,
            ;
        }
        let m5 = m4 * mid;
        proof {
            assert(m4 * mid == mid * mid * mid * mid * mid) by (nonlinear_arith)
                requires
                    m2 == mid * mid,
                    m4 == m2 * m2,
            ;
            assert(m5 == pow5(mid as int));
        }
        if m5 * 1000000 <= c12 {
            lo = mid;
        } else {
            hi = mid;
        }
    }
    proof {
        lemma_gamma_floor_is(c as int, lo as int);
    }
    lo as u64
}

/// The magnitude of a truncating quotient is at most `m` whenever the
/// numerator's magnitude is at most `m * b`.
pub proof fn lemma_div0_quotient_bound(a: int, b: int, m: int)
    requires
        b > 0,
        0 <= m,
        -(m * b) <= a <= m * b,
    ensures
        -m <= div0(a, b) <= m,
{
    if a >= 0 {
        vstd::arithmetic::div_mod::lemma_div_is_ordered(a, m * b, b);
        vstd::arithmetic::div_mod::lemma_div_by_multiple(m, b);
        vstd::arithmetic::div_mod::lemma_div_pos_is_pos(a, b);
    } else {
        vstd::arithmetic::div_mod::lemma_div_is_ordered(-a, m * b, b);
        vstd::arithmetic::div_mod::lemma_div_by_multiple(m, b);
        vstd::arithmetic::div_mod::lemma_div_pos_is_pos(-a, b);
    }
}

/// Division that truncates toward zero for a positive divisor, matching the
/// behavior of machine division on a signed numerator.
pub open spec fn div0(a: int, b: int) -> int {
    if a >= 0 {
        a / b
    } else {
        -((-a) / b)
    }
}

pub fn div0_i64(a: i64, b: i64) -> (r: i64)
    requires
        b > 0,
        a > i64::MIN,
    ensures
        r as int == div0(a as int, b as int),
{
    if a >= 0 {
        a / b
    } else {
        -((-a) / b)
    }
}

} // verus!
