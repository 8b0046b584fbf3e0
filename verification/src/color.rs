//! Color types and color-space math. The engine works in CIE Lab (D65) over
//! fixed-point integers: Lab components are stored in milli-units (the real
//! L*, a*, b* values times 1000), and distances are returned in milli-units
//! as well. Every conversion step is an exact integer computation pinned
//! down by the contracts: sRGB companding through a 2.4-power bracket,
//! XYZ by the standard matrix, and the Lab nonlinearity through a floor
//! cube root.
use vstd::prelude::*;

use crate::fixed::cbrt_floor;
use crate::fixed::div0;
use crate::fixed::div0_i64;
use crate::fixed::gamma_expand;
use crate::fixed::gamma_floor;
use crate::fixed::icbrt;
use crate::fixed::is_sqrt_floor;
use crate::fixed::isqrt;
use crate::fixed::lemma_cbrt_floor_bound;
use crate::fixed::lemma_cbrt_floor_lower;
use crate::fixed::lemma_div0_quotient_bound;
use crate::fixed::lemma_sqrt_floor_bound;
use crate::fixed::sqrt_floor;
use crate::text::chars_of;
use crate::text::hex_val;
use crate::text::trim_range;
use crate::text::trimmed;

verus! {

/// The hex string without one leading hash mark.
pub open spec fn strip_hash(s: Seq<char>) -> Seq<char> {
    if s.len() > 0 && s[0] == '#' {
        s.subrange(1, s.len() as int)
    } else {
        s
    }
}

/// Exactly six hexadecimal digits.
pub open spec fn is_hex6(s: Seq<char>) -> bool {
    s.len() == 6 && forall|k: int| 0 <= k < 6 ==> hex_val(#[trigger] s[k]) < 16
}

/// The `k`-th byte encoded by a six-digit hex string.
pub open spec fn hex_byte(s: Seq<char>, k: int) -> int {
    hex_val(s[2 * k]) * 16 + hex_val(s[2 * k + 1])
}

/// Exec hexadecimal digit value; exact mirror of `hex_val`.
fn hex_digit(c: char) -> (v: u8)
    ensures
        v as int == hex_val(c),
{
    match c {
        '0' => 0,
        '1' => 1,
        '2' => 2,
        '3' => 3,
        '4' => 4,
        '5' => 5,
        '6' => 6,
        '7' => 7,
        '8' => 8,
        '9' => 9,
        'a' | 'A' => 10,
        'b' | 'B' => 11,
        'c' | 'C' => 12,
        'd' | 'D' => 13,
        'e' | 'E' => 14,
        'f' | 'F' => 15,
        _ => 16,
    }
}

/// Parse a `#rrggbb` or `rrggbb` color, ignoring surrounding whitespace:
/// the three encoded bytes if, after trimming and dropping one leading
/// hash mark, exactly six hex digits remain; nothing otherwise.
pub fn hex_to_rgb(hex: &str) -> (r: Option<[u8; 3]>)
    ensures
        ({
            let t = strip_hash(trimmed(hex@));
            match r {
                Some(c) => is_hex6(t) && c@[0] == hex_byte(t, 0) && c@[1] == hex_byte(t, 1)
                    && c@[2] == hex_byte(t, 2),
                None => !is_hex6(t),
            }
        }),
{
    let ghost t = strip_hash(trimmed(hex@));
    let cv = chars_of(hex);
    proof {
        assert(cv@.subrange(0, cv@.len() as int) =~= hex@);
    }
    let n = cv.len();
    let (i0, j) = trim_range(&cv, 0, n);
    let i = if i0 < j && cv[i0] == '#' {
        i0 + 1
    } else {
        i0
    };
    proof {
        if i0 < j && cv@[i0 as int] == '#' {
            assert(trimmed(hex@)[0] == cv@[i0 as int]);
            assert(t =~= cv@.subrange(i as int, j as int));
        } else {
            assert(t =~= cv@.subrange(i as int, j as int));
        }
    }
    if j - i != 6 {
        return None;
    }
    let v0 = hex_digit(cv[i]);
    let v1 = hex_digit(cv[i + 1]);
    let v2 = hex_digit(cv[i + 2]);
    let v3 = hex_digit(cv[i + 3]);
    let v4 = hex_digit(cv[i + 4]);
    let v5 = hex_digit(cv[i + 5]);
    proof {
        assert(forall|k: int| 0 <= k < 6 ==> t[k] == cv@[i + k]);
    }
    if v0 >= 16 || v1 >= 16 || v2 >= 16 || v3 >= 16 || v4 >= 16 || v5 >= 16 {
        proof {
            if v0 >= 16 {
                assert(hex_val(t[0]) >= 16);
            } else if v1 >= 16 {
                assert(hex_val(t[1]) >= 16);
            } else if v2 >= 16 {
                assert(hex_val(t[2]) >= 16);
            } else if v3 >= 16 {
                assert(hex_val(t[3]) >= 16);
            } else if v4 >= 16 {
                assert(hex_val(t[4]) >= 16);
            } else {
                assert(hex_val(t[5]) >= 16);
            }
        }
        return None;
    }
    Some([v0 * 16 + v1, v2 * 16 + v3, v4 * 16 + v5])
}

/// A CIE Lab color in milli-units: `l` is 1000 times L*, and likewise for
/// `a` and `b`. Derived from sRGB bytes, never persisted.
#[derive(Clone, Copy, PartialEq, Eq, Structural, Debug)]
pub struct Lab {
    pub l: i64,
    pub a: i64,
    pub b: i64,
}

/// The component ranges every Lab value produced by `rgb_to_lab` lies in;
/// the distance functions require them so that all arithmetic stays exact.
pub open spec fn lab_valid(p: Lab) -> bool {
    &&& 0 <= p.l <= 100000
    &&& -500000 <= p.a <= 500000
    &&& -500000 <= p.b <= 500000
}

/// Linear-light value of one sRGB byte, scaled by 10^6: inverse companding
/// with the standard 0.04045 cutoff, 1/12.92 linear segment and 2.4-power
/// segment.
pub open spec fn srgb_linear_micro(v: int) -> int {
    if v <= 10 {
        (v * 10000000) / 32946
    } else {
        gamma_floor((v * 1000000 + 14025000) / 269025)
    }
}

/// The Lab nonlinearity `f` on a micro-scaled tristimulus ratio: a cube
/// root above the 0.008856 cutoff, else the linear segment
/// `7.787 t + 16/116`.
pub open spec fn lab_f_micro(t: int) -> int {
    if t > 8856 {
        cbrt_floor(t * 1000000000000)
    } else {
        (7787 * t) / 1000 + 137931
    }
}

/// The X tristimulus ratio (micro-scaled, divided by the D65 white point)
/// of micro-scaled linear RGB.
pub open spec fn xw_micro(lr: int, lg: int, lb: int) -> int {
    ((lr * 4124564 + lg * 3575761 + lb * 1804375) / 10000000) * 100000 / 95047
}

/// The Y tristimulus ratio (micro-scaled; the D65 white point is 1).
pub open spec fn yw_micro(lr: int, lg: int, lb: int) -> int {
    (lr * 2126729 + lg * 7151522 + lb * 721750) / 10000000
}

/// The Z tristimulus ratio (micro-scaled, divided by the D65 white point).
pub open spec fn zw_micro(lr: int, lg: int, lb: int) -> int {
    ((lr * 193339 + lg * 1191920 + lb * 9503041) / 10000000) * 100000 / 108883
}

/// The milli-scaled L* component of an sRGB byte triple.
#[verifier::opaque]
pub open spec fn lab_l_spec(r: int, g: int, b: int) -> int {
    let lr = srgb_linear_micro(r);
    let lg = srgb_linear_micro(g);
    let lb = srgb_linear_micro(b);
    let fy = lab_f_micro(yw_micro(lr, lg, lb));
    div0(116 * fy - 16000000, 1000)
}

/// The milli-scaled a* component of an sRGB byte triple.
#[verifier::opaque]
pub open spec fn lab_a_spec(r: int, g: int, b: int) -> int {
    let lr = srgb_linear_micro(r);
    let lg = srgb_linear_micro(g);
    let lb = srgb_linear_micro(b);
    let fx = lab_f_micro(xw_micro(lr, lg, lb));
    let fy = lab_f_micro(yw_micro(lr, lg, lb));
    div0(500 * (fx - fy), 1000)
}

/// The milli-scaled b* component of an sRGB byte triple.
#[verifier::opaque]
pub open spec fn lab_b_spec(r: int, g: int, b: int) -> int {
    let lr = srgb_linear_micro(r);
    let lg = srgb_linear_micro(g);
    let lb = srgb_linear_micro(b);
    let fy = lab_f_micro(yw_micro(lr, lg, lb));
    let fz = lab_f_micro(zw_micro(lr, lg, lb));
    div0(200 * (fy - fz), 1000)
}

/// The Lab value of an sRGB byte triple, as `rgb_to_lab` computes it.
pub open spec fn lab_of_rgb(r: int, g: int, b: int) -> Lab {
    Lab { l: lab_l_spec(r, g, b) as i64, a: lab_a_spec(r, g, b) as i64, b: lab_b_spec(r, g, b) as i64 }
}

/// Exec inverse companding; exact mirror of `srgb_linear_micro`.
fn srgb_linear(v: u8) -> (r: i64)
    ensures
        r as int == srgb_linear_micro(v as int),
        0 <= r <= 1000000,
{
    if v <= 10 {
        proof {
            vstd::arithmetic::div_mod::lemma_div_pos_is_pos((v as int) * 10000000, 32946);
            vstd::arithmetic::div_mod::lemma_div_is_ordered(
                (v as int) * 10000000,
                100000000,
                32946,
            );
        }
        ((v as i64) * 10000000) / 32946
    } else {
        proof {
            vstd::arithmetic::div_mod::lemma_div_pos_is_pos(
                (v as int) * 1000000 + 14025000,
                269025,
            );
            vstd::arithmetic::div_mod::lemma_div_is_ordered(
                (v as int) * 1000000 + 14025000,
                269025000,
                269025,
            );
        }
        let c = ((v as i64) * 1000000 + 14025000) / 269025;
        gamma_expand(c as u64) as i64
    }
}

/// Exec Lab nonlinearity; exact mirror of `lab_f_micro`.
fn lab_f(t: i64) -> (r: i64)
    requires
        0 <= t <= 1000001,
    ensures
        r as int == lab_f_micro(t as int),
        137931 <= r <= 1000001,
{
    if t > 8856 {
        let x = (t as u128) * 1000000000000;
        let r = icbrt(x);
        proof {
            lemma_cbrt_floor_bound(x as int, 1000001);
            assert((1000002int) * 1000002 * 1000002 > 1000001000000000000int) by (nonlinear_arith);
            lemma_cbrt_floor_lower(x as int, 137931);
            assert((137931int) * 137931 * 137931 <= 8857000000000000int) by (nonlinear_arith);
        }
        r as i64
    } else {
        proof {
            vstd::arithmetic::div_mod::lemma_div_pos_is_pos(7787 * (t as int), 1000);
            vstd::arithmetic::div_mod::lemma_div_is_ordered(7787 * (t as int), 68961672, 1000);
        }
        (7787 * t) / 1000 + 137931
    }
}

/// Convert an sRGB byte triple to Lab (D65), milli-scaled. Every stage is
/// the exact integer computation named in the three component specs.
pub fn rgb_to_lab(r: u8, g: u8, b: u8) -> (lab: Lab)
    ensures
        lab.l as int == lab_l_spec(r as int, g as int, b as int),
        lab.a as int == lab_a_spec(r as int, g as int, b as int),
        lab.b as int == lab_b_spec(r as int, g as int, b as int),
        lab == lab_of_rgb(r as int, g as int, b as int),
        lab_valid(lab),
{
    proof {
        reveal(lab_l_spec);
        reveal(lab_a_spec);
        reveal(lab_b_spec);
    }
    let lr = srgb_linear(r);
    let lg = srgb_linear(g);
    let lb = srgb_linear(b);

    let xn = lr * 4124564 + lg * 3575761 + lb * 1804375;
    proof {
        vstd::arithmetic::div_mod::lemma_div_pos_is_pos(xn as int, 10000000);
        vstd::arithmetic::div_mod::lemma_div_is_ordered(xn as int, 9504700000000, 10000000);
    }
    let x = xn / 10000000;
    proof {
        vstd::arithmetic::div_mod::lemma_div_pos_is_pos(x as int * 100000, 95047);
        vstd::arithmetic::div_mod::lemma_div_is_ordered(x as int * 100000, 95047000000, 95047);
    }
    let xw = (x * 100000) / 95047;

    let yn = lr * 2126729 + lg * 7151522 + lb * 721750;
    proof {
        vstd::arithmetic::div_mod::lemma_div_pos_is_pos(yn as int, 10000000);
        vstd::arithmetic::div_mod::lemma_div_is_ordered(yn as int, 10000001000000, 10000000);
    }
    let y = yn / 10000000;

    let zn = lr * 193339 + lg * 1191920 + lb * 9503041;
    proof {
        vstd::arithmetic::div_mod::lemma_div_pos_is_pos(zn as int, 10000000);
        vstd::arithmetic::div_mod::lemma_div_is_ordered(zn as int, 10888300000000, 10000000);
    }
    let z = zn / 10000000;
    proof {
        vstd::arithmetic::div_mod::lemma_div_pos_is_pos(z as int * 100000, 108883);
        vstd::arithmetic::div_mod::lemma_div_is_ordered(z as int * 100000, 108883000000, 108883);
    }
    let zw = (z * 100000) / 108883;

    let fx = lab_f(xw);
    let fy = lab_f(y);
    let fz = lab_f(zw);

    let ln = 116 * fy - 16000000;
    let l = div0_i64(ln, 1000);
    proof {
        if ln >= 0 {
            vstd::arithmetic::div_mod::lemma_div_pos_is_pos(ln as int, 1000);
            vstd::arithmetic::div_mod::lemma_div_is_ordered(ln as int, 100000116, 1000);
        } else {
            vstd::arithmetic::div_mod::lemma_basic_div(-(ln as int), 1000);
        }
    }
    let an = 500 * (fx - fy);
    let a = div0_i64(an, 1000);
    proof {
        lemma_div0_quotient_bound(an as int, 1000, 500000);
    }
    let bn = 200 * (fy - fz);
    let bb = div0_i64(bn, 1000);
    proof {
        lemma_div0_quotient_bound(bn as int, 1000, 500000);
    }
    Lab { l, a, b: bb }
}

/// Plain Euclidean Lab distance, milli-scaled: the floor of
/// `1000 * sqrt(dL^2 + da^2 + db^2)` over milli-scaled components.
pub open spec fn lab_distance_spec(p: Lab, q: Lab) -> int {
    let dl = p.l - q.l;
    let da = p.a - q.a;
    let db = p.b - q.b;
    sqrt_floor(dl * dl + da * da + db * db)
}

/// Weighted Lab distance, milli-scaled: the floor of
/// `1000 * sqrt(2 dL^2 + 4 da^2 + db^2)`, emphasizing chroma over lightness.
pub open spec fn lab_distance_weighted_spec(p: Lab, q: Lab) -> int {
    let dl = p.l - q.l;
    let da = p.a - q.a;
    let db = p.b - q.b;
    sqrt_floor(2 * (dl * dl) + 4 * (da * da) + db * db)
}

/// Exec Euclidean Lab distance; exact mirror of `lab_distance_spec`.
pub fn lab_distance(p: Lab, q: Lab) -> (r: i64)
    requires
        lab_valid(p),
        lab_valid(q),
    ensures
        r as int == lab_distance_spec(p, q),
        0 <= r <= 3000000,
{
    let dl = p.l - q.l;
    let da = p.a - q.a;
    let db = p.b - q.b;
    proof {
        assert(0 <= dl * dl <= 10000000000i64 && 0 <= da * da <= 1000000000000i64 && 0 <= db
            * db <= 1000000000000i64) by (nonlinear_arith)
            requires
                -100000 <= dl <= 100000,
                -1000000 <= da <= 1000000,
                -1000000 <= db <= 1000000,
        ;
    }
    let s = dl * dl + da * da + db * db;
    let r = isqrt(s as u128);
    proof {
        lemma_sqrt_floor_bound(s as int, 3000000);
        assert((3000001int) * 3000001 > 2010000000000int) by (nonlinear_arith);
    }
    r as i64
}

/// Exec weighted Lab distance; exact mirror of `lab_distance_weighted_spec`.
pub fn lab_distance_weighted(p: Lab, q: Lab) -> (r: i64)
    requires
        lab_valid(p),
        lab_valid(q),
    ensures
        r as int == lab_distance_weighted_spec(p, q),
        0 <= r <= 3000000,
{
    let dl = p.l - q.l;
    let da = p.a - q.a;
    let db = p.b - q.b;
    proof {
        assert(0 <= dl * dl <= 10000000000i64 && 0 <= da * da <= 1000000000000i64 && 0 <= db
            * db <= 1000000000000i64) by (nonlinear_arith)
            requires
                -100000 <= dl <= 100000,
                -1000000 <= da <= 1000000,
                -1000000 <= db <= 1000000,
        ;
    }
    let s = 2 * (dl * dl) + 4 * (da * da) + db * db;
    let r = isqrt(s as u128);
    proof {
        lemma_sqrt_floor_bound(s as int, 3000000);
        assert((3000001int) * 3000001 > 5020000000000int) by (nonlinear_arith);
    }
    r as i64
}

/// Perceived brightness of an sRGB byte triple as the exact integer
/// `299 r + 587 g + 114 b`, i.e. the Rec. 601 luma scaled by 255000.
pub open spec fn brightness_spec(r: int, g: int, b: int) -> int {
    299 * r + 587 * g + 114 * b
}

/// Exec brightness; exact mirror of `brightness_spec`. The result is in
/// [0, 255000]; 255000 stands for full white.
pub fn brightness(r: u8, g: u8, b: u8) -> (v: u32)
    ensures
        v as int == brightness_spec(r as int, g as int, b as int),
        v <= 255000,
{
    299 * (r as u32) + 587 * (g as u32) + 114 * (b as u32)
}


} // verus!

verus! {

/// Seventh power, for the chroma ratio in the G and RC factors.
pub open spec fn pow7(x: int) -> int {
    x * x * x * x * x * x * x
}

/// Mean chroma of two milli-scaled Lab colors (floor square roots).
pub open spec fn avg_chroma(p: Lab, q: Lab) -> int {
    (sqrt_floor(p.a * p.a + p.b * p.b) + sqrt_floor(q.a * q.a + q.b * q.b)) / 2
}

/// The scaled square root of `C^7 / (C^7 + 25^7)` over the mean chroma,
/// at scale 10^4; the G factor is `(1 - this/10^4) / 2` and the RC factor
/// is twice it.
pub open spec fn chroma_ratio_sq(avg_c: int) -> int {
    let acd = avg_c / 100;
    let p7 = pow7(acd);
    sqrt_floor((p7 * 100000000) / (p7 + 61035156250000000))
}

/// The G-adjusted a* component: `a * (1 + G)` with `G` at scale 10^4.
pub open spec fn aprime(a: int, sq: int) -> int {
    div0(a * (10000 + (10000 - sq) / 2), 10000)
}

/// The adjusted chroma `C' = sqrt(a'^2 + b^2)`.
pub open spec fn cprime(a: int, b: int, sq: int) -> int {
    sqrt_floor(aprime(a, sq) * aprime(a, sq) + b * b)
}

/// The adjusted hue angle `h' = atan2(b, a')` in deci-degrees.
pub open spec fn hprime(a: int, b: int, sq: int) -> int {
    crate::trig::atan2_deg10(b, aprime(a, sq))
}

/// The hue-difference term dH' (milli-scaled): zero when either adjusted
/// chroma vanishes, else `2 sqrt(C1' C2') sin(dh'/2)`.
pub open spec fn ciede_dhp(c1p: int, c2p: int, h1p: int, h2p: int) -> int {
    let hdiff = if c1p * c2p == 0 {
        0
    } else if crate::trig::abs1(h2p - h1p) <= 1800 {
        h2p - h1p
    } else if h2p <= h1p {
        h2p - h1p + 3600
    } else {
        h2p - h1p - 3600
    };
    if c1p * c2p == 0 {
        0
    } else {
        div0(2 * sqrt_floor(c1p * c2p) * crate::trig::sin_deg10(div0(hdiff, 2)), 10000)
    }
}

/// The mean adjusted hue in deci-degrees; the plain sum in the degenerate
/// zero-chroma case.
pub open spec fn ciede_avg_hp(c1p: int, c2p: int, h1p: int, h2p: int) -> int {
    if c1p * c2p == 0 {
        h1p + h2p
    } else if crate::trig::abs1(h1p - h2p) <= 1800 {
        (h1p + h2p) / 2
    } else if h1p + h2p < 3600 {
        (h1p + h2p + 3600) / 2
    } else {
        (h1p + h2p - 3600) / 2
    }
}

/// The hue weighting factor T at scale 10^4.
pub open spec fn ciede_t_e4(avg_hp: int) -> int {
    10000 + div0(
        24 * crate::trig::cos_deg10(2 * avg_hp) + 32 * crate::trig::cos_deg10(3 * avg_hp + 60)
            - 17 * crate::trig::cos_deg10(avg_hp - 300) - 20 * crate::trig::cos_deg10(
            4 * avg_hp - 630,
        ),
        100,
    )
}

/// The rotation term RT at scale 10^4: `-RC sin(2 d_ro)` with the Gaussian
/// hue rotation angle.
pub open spec fn ciede_rt_e4(sq: int, avg_hp: int) -> int {
    let dro10 = (3 * crate::trig::gauss_e4(avg_hp - 2750)) / 100;
    div0(-(2 * sq * crate::trig::sin_deg10(2 * dro10)), 10000)
}

/// The lightness weighting function SL at scale 10^4.
pub open spec fn ciede_sl_e4(l1: int, l2: int) -> int {
    let d50 = (l1 + l2) / 2 - 50000;
    10000 + (15 * (d50 * d50)) / (100 * sqrt_floor(20000000 + d50 * d50))
}

/// The final quadratic combination: the three weighted difference terms,
/// the rotation cross term, and the floor square root.
pub open spec fn ciede_final(
    dlp: int,
    dcp: int,
    dhp: int,
    sl: int,
    sc: int,
    sh: int,
    rt: int,
) -> int {
    let x1 = div0(dlp * 10000, sl);
    let x2 = div0(dcp * 10000, sc);
    let x3 = div0(dhp * 10000, sh);
    let rterm = div0(rt * x2 * x3, 10000);
    sqrt_floor(x1 * x1 + x2 * x2 + x3 * x3 + rterm)
}

/// The CIEDE2000 combination stage over lightnesses, mean chroma, the
/// chroma-ratio root, adjusted chromas and adjusted hues.
pub open spec fn ciede_combine(
    l1: int,
    l2: int,
    avg_c: int,
    sq: int,
    c1p: int,
    c2p: int,
    h1p: int,
    h2p: int,
) -> int {
    let avg_hp = ciede_avg_hp(c1p, c2p, h1p, h2p);
    ciede_final(
        l2 - l1,
        c2p - c1p,
        ciede_dhp(c1p, c2p, h1p, h2p),
        ciede_sl_e4(l1, l2),
        10000 + (45 * avg_c) / 100,
        10000 + div0(15 * avg_c * ciede_t_e4(avg_hp), 1000000),
        ciede_rt_e4(sq, avg_hp),
    )
}

/// The CIEDE2000 color difference of two milli-scaled Lab colors, itself
/// milli-scaled, computed entirely in fixed point. The degenerate
/// zero-chroma case forces the hue difference to zero and takes the plain
/// hue sum, as the standard prescribes; parametric weights are 1.
#[verifier::opaque]
pub open spec fn ciede2000_spec(p: Lab, q: Lab) -> int {
    let avg_c = avg_chroma(p, q);
    let sq = chroma_ratio_sq(avg_c);
    ciede_combine(
        p.l as int,
        q.l as int,
        avg_c,
        sq,
        cprime(p.a as int, p.b as int, sq),
        cprime(q.a as int, q.b as int, sq),
        hprime(p.a as int, p.b as int, sq),
        hprime(q.a as int, q.b as int, sq),
    )
}

/// Floor chroma `sqrt(a^2 + b^2)` of milli-scaled components.
fn chroma(a: i64, b: i64) -> (c: i64)
    requires
        -1500000 <= a <= 1500000,
        -1000000 <= b <= 1000000,
    ensures
        c as int == sqrt_floor(a * a + b * b),
        is_sqrt_floor(a * a + b * b, c as int),
        0 <= c <= 3000000,
{
    proof {
        assert(0 <= a * a <= 2250000000000i64 && 0 <= b * b <= 1000000000000i64)
            by (nonlinear_arith)
            requires
                -1500000 <= a <= 1500000,
                -1000000 <= b <= 1000000,
        ;
    }
    let s = a * a + b * b;
    let c = isqrt(s as u128);
    proof {
        lemma_sqrt_floor_bound(s as int, 3000000);
        assert((3000001int) * 3000001 > 3250000000000int) by (nonlinear_arith);
    }
    c as i64
}

/// Exec chroma-ratio root; exact mirror of `chroma_ratio_sq`.
fn ciede_ratio_sq(avg_c: i64) -> (sq: i64)
    requires
        0 <= avg_c <= 1500000,
    ensures
        sq as int == chroma_ratio_sq(avg_c as int),
        0 <= sq <= 10000,
{
    let acd = avg_c / 100;
    proof {
        vstd::arithmetic::div_mod::lemma_div_pos_is_pos(avg_c as int, 100);
        vstd::arithmetic::div_mod::lemma_div_is_ordered(avg_c as int, 1500000, 100);
    }
    let acd128 = acd as u128;
    proof {
        assert(acd128 * acd128 <= 225000000u128) by (nonlinear_arith)
            requires
                acd128 <= 15000,
        ;
    }
    let acd2 = acd128 * acd128;
    proof {
        assert(acd2 * acd128 <= 3375000000000u128) by (nonlinear_arith)
            requires
                acd2 <= 225000000u128,
                acd128 <= 15000,
        ;
    }
    let acd3 = acd2 * acd128;
    proof {
        assert(acd3 * acd3 <= 11390625000000000000000000u128) by (nonlinear_arith)
            requires
                acd3 <= 3375000000000u128,
        ;
    }
    let acd6 = acd3 * acd3;
    proof {
        assert(acd6 * acd128 <= 170859375000000000000000000000u128) by (nonlinear_arith)
            requires
                acd6 <= 11390625000000000000000000u128,
                acd128 <= 15000,
        ;
    }
    let p7 = acd6 * acd128;
    proof {
        assert(p7 == pow7(acd as int)) by (nonlinear_arith)
            requires
                acd2 == acd128 * acd128,
                acd3 == acd2 * acd128,
                acd6 == acd3 * acd3,
                p7 == acd6 * acd128,
                acd128 == acd,
        ;
    }
    let den = p7 + 61035156250000000;
    let num = p7 * 100000000;
    let ratio_e8 = num / den;
    proof {
        assert(num <= den * 100000000) by (nonlinear_arith)
            requires
                num == p7 * 100000000,
                den == p7 + 61035156250000000,
        ;
        vstd::arithmetic::div_mod::lemma_div_is_ordered(
            num as int,
            den as int * 100000000,
            den as int,
        );
        vstd::arithmetic::div_mod::lemma_div_by_multiple(100000000, den as int);
        assert(den as int * 100000000 == 100000000 * (den as int)) by (nonlinear_arith);
        vstd::arithmetic::div_mod::lemma_div_pos_is_pos(num as int, den as int);
    }
    let sq128 = isqrt(ratio_e8);
    proof {
        lemma_sqrt_floor_bound(ratio_e8 as int, 10000);
        assert((10001int) * 10001 > 100000000int) by (nonlinear_arith);
    }
    sq128 as i64
}

/// Exec adjusted chroma and hue of one color; exact mirrors of `cprime`
/// and `hprime`.
fn ciede_prime(a: i64, b: i64, sq: i64) -> (r: (i64, i64))
    requires
        -500000 <= a <= 500000,
        -500000 <= b <= 500000,
        0 <= sq <= 10000,
    ensures
        r.0 as int == cprime(a as int, b as int, sq as int),
        r.1 as int == hprime(a as int, b as int, sq as int),
        0 <= r.0 <= 3000000,
        0 <= r.1 < 3600,
{
    let g_e4 = (10000 - sq) / 2;
    let f = 10000 + g_e4;
    proof {
        assert(-15000000000i64 <= a * f <= 15000000000i64) by (nonlinear_arith)
            requires
                -500000 <= a <= 500000,
                0 <= f <= 15000,
        ;
    }
    let ap = div0_i64(a * f, 10000);
    proof {
        lemma_div0_quotient_bound(a as int * f, 10000, 1500000);
        assert(1500000int * 10000 == 15000000000int);
    }
    let cp = chroma(ap, b);
    let hp = crate::trig::atan2_deg10_exec(b, ap);
    (cp, hp)
}

/// Exec hue-difference term; exact mirror of `ciede_dhp`.
fn ciede_dhp_exec(c1p: i64, c2p: i64, h1p: i64, h2p: i64) -> (dhp: i64)
    requires
        0 <= c1p <= 3000000,
        0 <= c2p <= 3000000,
        0 <= h1p < 3600,
        0 <= h2p < 3600,
    ensures
        dhp as int == ciede_dhp(c1p as int, c2p as int, h1p as int, h2p as int),
        -6000000 <= dhp <= 6000000,
{
    proof {
        assert(0 <= c1p * c2p <= 9000000000000i64) by (nonlinear_arith)
            requires
                0 <= c1p <= 3000000,
                0 <= c2p <= 3000000,
        ;
    }
    let cc = c1p * c2p;
    if cc == 0 {
        return 0;
    }
    let hd = h2p - h1p;
    let ahd = if hd >= 0 {
        hd
    } else {
        -hd
    };
    let hdiff = if ahd <= 1800 {
        hd
    } else if h2p <= h1p {
        hd + 3600
    } else {
        hd - 3600
    };
    let half = div0_i64(hdiff, 2);
    proof {
        lemma_div0_quotient_bound(hdiff as int, 2, 1800);
        assert(1800int * 2 == 3600int);
    }
    let sroot_u = isqrt(cc as u128);
    proof {
        lemma_sqrt_floor_bound(cc as int, 3000000);
        assert((3000001int) * 3000001 > 9000000000000int) by (nonlinear_arith);
    }
    let sroot = sroot_u as i64;
    let sv = crate::trig::sin_deg10_exec(half);
    proof {
        assert(-30000000000i64 <= sroot * sv <= 30000000000i64 && 2 * (sroot as int
            * sv as int) == 2 * sroot * sv) by (nonlinear_arith)
            requires
                0 <= sroot <= 3000000,
                -10000 <= sv <= 10000,
        ;
    }
    let prod = 2 * (sroot * sv);
    let d = div0_i64(prod, 10000);
    proof {
        lemma_div0_quotient_bound(prod as int, 10000, 6000000);
        assert(6000000int * 10000 == 60000000000int);
    }
    d
}

/// Exec mean adjusted hue; exact mirror of `ciede_avg_hp`.
fn ciede_avg_hp_exec(c1p: i64, c2p: i64, h1p: i64, h2p: i64) -> (avg_hp: i64)
    requires
        0 <= c1p <= 3000000,
        0 <= c2p <= 3000000,
        0 <= h1p < 3600,
        0 <= h2p < 3600,
    ensures
        avg_hp as int == ciede_avg_hp(c1p as int, c2p as int, h1p as int, h2p as int),
        0 <= avg_hp < 7200,
{
    proof {
        assert(0 <= c1p * c2p <= 9000000000000i64) by (nonlinear_arith)
            requires
                0 <= c1p <= 3000000,
                0 <= c2p <= 3000000,
        ;
    }
    let cc = c1p * c2p;
    let hs = h1p + h2p;
    let ahs = if h1p >= h2p {
        h1p - h2p
    } else {
        h2p - h1p
    };
    if cc == 0 {
        hs
    } else if ahs <= 1800 {
        hs / 2
    } else if hs < 3600 {
        (hs + 3600) / 2
    } else {
        (hs - 3600) / 2
    }
}

/// Exec T factor; exact mirror of `ciede_t_e4`.
fn ciede_t_e4_exec(avg_hp: i64) -> (t: i64)
    requires
        0 <= avg_hp < 7200,
    ensures
        t as int == ciede_t_e4(avg_hp as int),
        700 <= t <= 19300,
{
    let cb = crate::trig::cos_deg10_exec(2 * avg_hp);
    let cc2 = crate::trig::cos_deg10_exec(3 * avg_hp + 60);
    let ca = crate::trig::cos_deg10_exec(avg_hp - 300);
    let cd = crate::trig::cos_deg10_exec(4 * avg_hp - 630);
    let tsum = 24 * cb + 32 * cc2 - 17 * ca - 20 * cd;
    let tdiv = div0_i64(tsum, 100);
    proof {
        lemma_div0_quotient_bound(tsum as int, 100, 9300);
    }
    10000 + tdiv
}

/// Exec rotation term; exact mirror of `ciede_rt_e4`.
fn ciede_rt_e4_exec(sq: i64, avg_hp: i64) -> (rt: i64)
    requires
        0 <= sq <= 10000,
        0 <= avg_hp < 7200,
    ensures
        rt as int == ciede_rt_e4(sq as int, avg_hp as int),
        -20000 <= rt <= 20000,
{
    let ge = crate::trig::gauss_e4_exec(avg_hp - 2750);
    proof {
        vstd::arithmetic::div_mod::lemma_div_pos_is_pos(3 * ge as int, 100);
        vstd::arithmetic::div_mod::lemma_div_is_ordered(3 * ge as int, 30000, 100);
    }
    let dro10 = (3 * ge) / 100;
    let s2 = crate::trig::sin_deg10_exec(2 * dro10);
    proof {
        assert(-200000000i64 <= 2 * sq * s2 <= 200000000i64) by (nonlinear_arith)
            requires
                0 <= sq <= 10000,
                -10000 <= s2 <= 10000,
        ;
    }
    let rtnum = -(2 * sq * s2);
    let rt = div0_i64(rtnum, 10000);
    proof {
        lemma_div0_quotient_bound(rtnum as int, 10000, 20000);
        assert(20000int * 10000 == 200000000int);
    }
    rt
}

/// Exec SL weight; exact mirror of `ciede_sl_e4`.
fn ciede_sl_e4_exec(l1: i64, l2: i64) -> (sl: i64)
    requires
        0 <= l1 <= 100000,
        0 <= l2 <= 100000,
    ensures
        sl as int == ciede_sl_e4(l1 as int, l2 as int),
        10000 <= sl <= 400000000,
{
    let d50 = (l1 + l2) / 2 - 50000;
    proof {
        assert(0 <= d50 * d50 <= 2500000000i64) by (nonlinear_arith)
            requires
                -50000 <= d50 <= 50000,
        ;
    }
    let dd = d50 * d50;
    let sarg = 20000000 + dd;
    let sroot2_u = isqrt(sarg as u128);
    proof {
        lemma_sqrt_floor_bound(sarg as int, 100000);
        assert((100001int) * 100001 > 2520000000int) by (nonlinear_arith);
        crate::fixed::lemma_sqrt_floor_lower(sarg as int, 4472);
        assert(4472int * 4472 <= 20000000int) by (nonlinear_arith);
    }
    let sroot2 = sroot2_u as i64;
    let sldiv = (15 * dd) / (100 * sroot2);
    proof {
        vstd::arithmetic::div_mod::lemma_div_pos_is_pos(15 * dd as int, 100 * sroot2 as int);
        vstd::arithmetic::div_mod::lemma_div_is_ordered_by_denominator(
            15 * dd as int,
            100,
            100 * sroot2 as int,
        );
        vstd::arithmetic::div_mod::lemma_div_is_ordered(15 * dd as int, 37500000000, 100);
    }
    10000 + sldiv
}

/// Exec final combination; exact mirror of `ciede_final`.
fn ciede_final_exec(dlp: i64, dcp: i64, dhp: i64, sl: i64, sc: i64, sh: i64, rt: i64) -> (de:
    i64)
    requires
        -100000 <= dlp <= 100000,
        -3000000 <= dcp <= 3000000,
        -6000000 <= dhp <= 6000000,
        10000 <= sl <= 400000000,
        10000 <= sc <= 1000000,
        10000 <= sh <= 1000000,
        -20000 <= rt <= 20000,
    ensures
        de as int == ciede_final(
            dlp as int,
            dcp as int,
            dhp as int,
            sl as int,
            sc as int,
            sh as int,
            rt as int,
        ),
        0 <= de <= 9999999,
{
    let x1 = div0_i64(dlp * 10000, sl);
    proof {
        lemma_div0_quotient_bound(dlp as int * 10000, sl as int, 100000);
        assert(100000int * sl >= 1000000000int);
    }
    let x2 = div0_i64(dcp * 10000, sc);
    proof {
        lemma_div0_quotient_bound(dcp as int * 10000, sc as int, 3000000);
        assert(3000000int * sc >= 30000000000int);
    }
    let x3 = div0_i64(dhp * 10000, sh);
    proof {
        lemma_div0_quotient_bound(dhp as int * 10000, sh as int, 6000000);
        assert(6000000int * sh >= 60000000000int);
    }
    proof {
        assert(0 <= x1 * x1 <= 10000000000i64 && 0 <= x2 * x2 <= 9000000000000i64 && 0 <= x3
            * x3 <= 36000000000000i64) by (nonlinear_arith)
            requires
                -100000 <= x1 <= 100000,
                -3000000 <= x2 <= 3000000,
                -6000000 <= x3 <= 6000000,
        ;
    }
    let xx = x1 * x1 + x2 * x2 + x3 * x3;
    proof {
        assert(-60000000000i64 <= rt * x2 <= 60000000000i64) by (nonlinear_arith)
            requires
                -20000 <= rt <= 20000,
                -3000000 <= x2 <= 3000000,
        ;
        assert(-360000000000000000i64 <= rt * x2 * x3 <= 360000000000000000i64)
            by (nonlinear_arith)
            requires
                -60000000000i64 <= rt * x2 <= 60000000000i64,
                -6000000 <= x3 <= 6000000,
        ;
    }
    let rprod = rt * x2 * x3;
    let rterm = div0_i64(rprod, 10000);
    proof {
        let ax23 = crate::trig::abs1(x2 as int * x3 as int);
        assert(rt as int * x2 as int * x3 as int == rt as int * (x2 as int * x3 as int) && -(
        20000 * ax23) <= rt as int * (x2 as int * x3 as int) <= 20000 * ax23 && 2 * (x2 as int
            * x3 as int) <= x2 as int * x2 as int + x3 as int * x3 as int && -(x2 as int
            * x2 as int + x3 as int * x3 as int) <= 2 * (x2 as int * x3 as int) && 2 * ax23
            * 10000 == 20000 * ax23 && 0 <= ax23) by (nonlinear_arith)
            requires
                -20000 <= rt <= 20000,
                ax23 == crate::trig::abs1(x2 as int * x3 as int),
        ;
        lemma_div0_quotient_bound(rprod as int, 10000, 2 * ax23);
    }
    let de2 = xx + rterm;
    let de_u = isqrt(de2 as u128);
    proof {
        lemma_sqrt_floor_bound(de2 as int, 9999999);
        assert((10000000int) * 10000000 > 91010000000000int) by (nonlinear_arith);
    }
    de_u as i64
}

/// Exec combination stage; exact mirror of `ciede_combine`.
fn ciede_combine_exec(
    l1: i64,
    l2: i64,
    avg_c: i64,
    sq: i64,
    c1p: i64,
    c2p: i64,
    h1p: i64,
    h2p: i64,
) -> (de: i64)
    requires
        0 <= l1 <= 100000,
        0 <= l2 <= 100000,
        0 <= avg_c <= 1500000,
        0 <= sq <= 10000,
        0 <= c1p <= 3000000,
        0 <= c2p <= 3000000,
        0 <= h1p < 3600,
        0 <= h2p < 3600,
    ensures
        de as int == ciede_combine(
            l1 as int,
            l2 as int,
            avg_c as int,
            sq as int,
            c1p as int,
            c2p as int,
            h1p as int,
            h2p as int,
        ),
        0 <= de <= 9999999,
{
    let dhp = ciede_dhp_exec(c1p, c2p, h1p, h2p);
    let avg_hp = ciede_avg_hp_exec(c1p, c2p, h1p, h2p);
    let t_e4 = ciede_t_e4_exec(avg_hp);
    let rt = ciede_rt_e4_exec(sq, avg_hp);
    let sl = ciede_sl_e4_exec(l1, l2);
    proof {
        vstd::arithmetic::div_mod::lemma_div_pos_is_pos(45 * avg_c as int, 100);
        vstd::arithmetic::div_mod::lemma_div_is_ordered(45 * avg_c as int, 67500000, 100);
    }
    let sc = 10000 + (45 * avg_c) / 100;
    proof {
        assert(0 <= 15 * avg_c * t_e4 <= 434250000000i64) by (nonlinear_arith)
            requires
                0 <= avg_c <= 1500000,
                700 <= t_e4 <= 19300,
        ;
    }
    let shnum = 15 * avg_c * t_e4;
    let shdiv = div0_i64(shnum, 1000000);
    proof {
        lemma_div0_quotient_bound(shnum as int, 1000000, 434250);
    }
    let sh = 10000 + shdiv;
    ciede_final_exec(l2 - l1, c2p - c1p, dhp, sl, sc, sh, rt)
}

/// The CIEDE2000 color difference in milli-units; returns exactly
/// `ciede2000_spec(p, q)`. A color compared to itself yields zero.
pub fn ciede2000(p: Lab, q: Lab) -> (de: i64)
    requires
        lab_valid(p),
        lab_valid(q),
    ensures
        de as int == ciede2000_spec(p, q),
        0 <= de <= 9999999,
{
    proof {
        reveal(ciede2000_spec);
    }
    let c1 = chroma(p.a, p.b);
    let c2 = chroma(q.a, q.b);
    proof {
        assert(0 <= p.a * p.a + p.b * p.b <= 500000000000i64 && 0 <= q.a * q.a + q.b * q.b
            <= 500000000000i64) by (nonlinear_arith)
            requires
                -500000 <= p.a <= 500000,
                -500000 <= p.b <= 500000,
                -500000 <= q.a <= 500000,
                -500000 <= q.b <= 500000,
        ;
        lemma_sqrt_floor_bound(p.a * p.a + p.b * p.b, 750000);
        lemma_sqrt_floor_bound(q.a * q.a + q.b * q.b, 750000);
        assert((750001int) * 750001 > 500000000000int) by (nonlinear_arith);
    }
    let avg_c = (c1 + c2) / 2;
    let sq = ciede_ratio_sq(avg_c);
    let (c1p, h1p) = ciede_prime(p.a, p.b, sq);
    let (c2p, h2p) = ciede_prime(q.a, q.b, sq);
    ciede_combine_exec(p.l, q.l, avg_c, sq, c1p, c2p, h1p, h2p)
}

/// Law: the CIEDE2000 difference of any valid Lab color compared with
/// itself is zero.
pub proof fn lemma_ciede2000_reflexive(p: Lab)
    ensures
        ciede2000_spec(p, p) == 0,
{
    reveal(ciede2000_spec);
    let aa = p.a * p.a + p.b * p.b;
    assert(0 <= p.a * p.a && 0 <= p.b * p.b) by (nonlinear_arith);
    crate::fixed::lemma_sqrt_floor_exists(aa);
    let c = sqrt_floor(aa);
    vstd::arithmetic::div_mod::lemma_div_by_multiple(c, 2);
    assert(c * 2 == 2 * c) by (nonlinear_arith);
    assert(c + c == c * 2);
    let avg_c = avg_chroma(p, p);
    assert(avg_c == c);
    let sq = chroma_ratio_sq(avg_c);
    let c1p = cprime(p.a as int, p.b as int, sq);
    let h1p = hprime(p.a as int, p.b as int, sq);

    // The hue-difference term vanishes.
    let cc = c1p * c1p;
    let dhp = ciede_dhp(c1p, c1p, h1p, h1p);
    if cc != 0 {
        assert(crate::trig::abs1(h1p - h1p) == 0);
        vstd::arithmetic::div_mod::lemma_div_of0(2);
        assert(div0(0, 2) == 0);
        // sin of the zero angle is zero
        vstd::arithmetic::div_mod::lemma_div_of0(3600);
        assert(0int % 3600 == 0) by {
            vstd::arithmetic::div_mod::lemma_fundamental_div_mod(0, 3600);
        }
        vstd::arithmetic::div_mod::lemma_div_of0(1000);
        vstd::arithmetic::div_mod::lemma_div_of0(100);
        vstd::arithmetic::div_mod::lemma_div_of0(600000000000000);
        vstd::arithmetic::div_mod::lemma_div_of0(12000000000000000000000000000);
        assert(0int * 1745329 == 0);
        assert(crate::trig::rad6_of_deg10(0) == 0);
        assert(0int * 0 == 0) by (nonlinear_arith);
        assert(crate::trig::sin_poly(0) == 0);
        assert(crate::trig::sin_quadrant(0) == 0);
        assert(crate::trig::sin_deg10(0) == 0);
        assert(2 * sqrt_floor(cc) * 0 == 0) by (nonlinear_arith);
        vstd::arithmetic::div_mod::lemma_div_of0(10000);
        assert(dhp == 0);
    }
    assert(dhp == 0);

    // The three weighted terms are zero because their numerators are.
    let sl = ciede_sl_e4(p.l as int, p.l as int);
    let d50 = (p.l + p.l) / 2 - 50000;
    assert(0 <= d50 * d50) by (nonlinear_arith);
    let dd = d50 * d50;
    crate::fixed::lemma_sqrt_floor_exists(20000000 + dd);
    crate::fixed::lemma_sqrt_floor_lower(20000000 + dd, 1);
    let sr = sqrt_floor(20000000 + dd);
    vstd::arithmetic::div_mod::lemma_div_pos_is_pos(15 * dd, 100 * sr);
    assert(sl >= 10000);

    let sc = 10000 + (45 * avg_c) / 100;
    vstd::arithmetic::div_mod::lemma_div_pos_is_pos(45 * avg_c, 100);
    assert(sc >= 10000);

    let avg_hp = ciede_avg_hp(c1p, c1p, h1p, h1p);
    let t_e4 = ciede_t_e4(avg_hp);
    crate::trig::lemma_cos_deg10_bound(2 * avg_hp);
    crate::trig::lemma_cos_deg10_bound(3 * avg_hp + 60);
    crate::trig::lemma_cos_deg10_bound(avg_hp - 300);
    crate::trig::lemma_cos_deg10_bound(4 * avg_hp - 630);
    let tsum = 24 * crate::trig::cos_deg10(2 * avg_hp) + 32 * crate::trig::cos_deg10(
        3 * avg_hp + 60,
    ) - 17 * crate::trig::cos_deg10(avg_hp - 300) - 20 * crate::trig::cos_deg10(
        4 * avg_hp - 630,
    );
    crate::fixed::lemma_div0_quotient_bound(tsum, 100, 9300);
    assert(t_e4 >= 700);
    assert(0 <= 15 * avg_c * t_e4) by (nonlinear_arith)
        requires
            0 <= avg_c,
            0 <= t_e4,
    ;
    let shnum = 15 * avg_c * t_e4;
    vstd::arithmetic::div_mod::lemma_div_pos_is_pos(shnum, 1000000);
    let sh = 10000 + div0(shnum, 1000000);
    assert(sh >= 10000);

    vstd::arithmetic::div_mod::lemma_div_of0(sl);
    vstd::arithmetic::div_mod::lemma_div_of0(sc);
    vstd::arithmetic::div_mod::lemma_div_of0(sh);
    let rt = ciede_rt_e4(sq, avg_hp);
    let x2 = div0((c1p - c1p) * 10000, sc);
    assert(x2 == 0);
    let x3 = div0(dhp * 10000, sh);
    assert(x3 == 0);
    assert(rt * 0 * 0 == 0) by (nonlinear_arith);
    vstd::arithmetic::div_mod::lemma_div_of0(10000);
    let de = ciede_combine(p.l as int, p.l as int, avg_c, sq, c1p, c1p, h1p, h1p);
    assert(is_sqrt_floor(0, 0));
    crate::fixed::lemma_sqrt_floor_is(0, 0);
    assert(de == 0);
    assert(ciede2000_spec(p, p) == de);
}


/// The hue weighting factor always lies between 0.07 and 1.93 at scale
/// 10^4, whatever the mean hue.
pub proof fn lemma_ciede_t_bound(avg_hp: int)
    ensures
        700 <= ciede_t_e4(avg_hp) <= 19300,
{
    crate::trig::lemma_cos_deg10_bound(2 * avg_hp);
    crate::trig::lemma_cos_deg10_bound(3 * avg_hp + 60);
    crate::trig::lemma_cos_deg10_bound(avg_hp - 300);
    crate::trig::lemma_cos_deg10_bound(4 * avg_hp - 630);
    let tsum = 24 * crate::trig::cos_deg10(2 * avg_hp) + 32 * crate::trig::cos_deg10(
        3 * avg_hp + 60,
    ) - 17 * crate::trig::cos_deg10(avg_hp - 300) - 20 * crate::trig::cos_deg10(
        4 * avg_hp - 630,
    );
    crate::fixed::lemma_div0_quotient_bound(tsum, 100, 9300);
}

/// The rotation term is bounded by 2 at scale 10^4 for any chroma-ratio
/// root in range.
pub proof fn lemma_ciede_rt_bound(sq: int, avg_hp: int)
    requires
        0 <= sq <= 10000,
    ensures
        -20000 <= ciede_rt_e4(sq, avg_hp) <= 20000,
{
    let dro10 = (3 * crate::trig::gauss_e4(avg_hp - 2750)) / 100;
    crate::trig::lemma_sin_deg10_bound(2 * dro10);
    let sv = crate::trig::sin_deg10(2 * dro10);
    assert(-200000000 <= 2 * sq * sv <= 200000000) by (nonlinear_arith)
        requires
            0 <= sq <= 10000,
            -10000 <= sv <= 10000,
    ;
    crate::fixed::lemma_div0_quotient_bound(-(2 * sq * sv), 10000, 20000);
    assert(20000int * 10000 == 200000000int);
}

/// The lightness weight is at least 1 at scale 10^4 for any lightnesses.
pub proof fn lemma_ciede_sl_pos(l1: int, l2: int)
    ensures
        ciede_sl_e4(l1, l2) >= 10000,
{
    let d50 = (l1 + l2) / 2 - 50000;
    assert(0 <= d50 * d50) by (nonlinear_arith);
    crate::fixed::lemma_sqrt_floor_exists(20000000 + d50 * d50);
    crate::fixed::lemma_sqrt_floor_lower(20000000 + d50 * d50, 1);
    let sr = sqrt_floor(20000000 + d50 * d50);
    assert(100 * sr >= 100) by (nonlinear_arith)
        requires
            sr >= 1,
    ;
    vstd::arithmetic::div_mod::lemma_div_pos_is_pos(15 * (d50 * d50), 100 * sr);
}

/// The chroma-ratio root lies within one unit at scale 10^4 for any
/// nonnegative mean chroma.
pub proof fn lemma_chroma_ratio_sq_range(avg_c: int)
    requires
        0 <= avg_c,
    ensures
        0 <= chroma_ratio_sq(avg_c) <= 10000,
{
    let acd = avg_c / 100;
    vstd::arithmetic::div_mod::lemma_div_pos_is_pos(avg_c, 100);
    let p7v = pow7(acd);
    assert(0 <= acd * acd * acd * acd * acd * acd * acd) by (nonlinear_arith)
        requires
            0 <= acd,
    ;
    assert(p7v == acd * acd * acd * acd * acd * acd * acd);
    let den = p7v + 61035156250000000;
    let num = p7v * 100000000;
    assert(num <= den * 100000000) by (nonlinear_arith)
        requires
            num == p7v * 100000000,
            den == p7v + 61035156250000000,
    ;
    vstd::arithmetic::div_mod::lemma_div_is_ordered(num, den * 100000000, den);
    vstd::arithmetic::div_mod::lemma_div_by_multiple(100000000, den);
    assert(den * 100000000 == 100000000 * den) by (nonlinear_arith);
    vstd::arithmetic::div_mod::lemma_div_pos_is_pos(num, den);
    crate::fixed::lemma_sqrt_floor_exists(num / den);
    crate::fixed::lemma_sqrt_floor_bound(num / den, 10000);
    assert((10001int) * 10001 > 100000000int) by (nonlinear_arith);
}

/// The final combination is nonnegative whenever the weights are positive
/// and the rotation term is within its bound.
pub proof fn lemma_ciede_final_nonneg(
    dlp: int,
    dcp: int,
    dhp: int,
    sl: int,
    sc: int,
    sh: int,
    rt: int,
)
    requires
        sl >= 1,
        sc >= 1,
        sh >= 1,
        -20000 <= rt <= 20000,
    ensures
        ciede_final(dlp, dcp, dhp, sl, sc, sh, rt) >= 0,
{
    let x1 = div0(dlp * 10000, sl);
    let x2 = div0(dcp * 10000, sc);
    let x3 = div0(dhp * 10000, sh);
    let ax23 = crate::trig::abs1(x2 * x3);
    assert(rt * x2 * x3 == rt * (x2 * x3) && -(20000 * ax23) <= rt * (x2 * x3) <= 20000 * ax23
        && 2 * (x2 * x3) <= x2 * x2 + x3 * x3 && -(x2 * x2 + x3 * x3) <= 2 * (x2 * x3) && 2
        * ax23 * 10000 == 20000 * ax23 && 0 <= ax23 && 0 <= x1 * x1) by (nonlinear_arith)
        requires
            -20000 <= rt <= 20000,
            ax23 == crate::trig::abs1(x2 * x3),
    ;
    crate::fixed::lemma_div0_quotient_bound(rt * x2 * x3, 10000, 2 * ax23);
    let rterm = div0(rt * x2 * x3, 10000);
    let de2 = x1 * x1 + x2 * x2 + x3 * x3 + rterm;
    crate::fixed::lemma_sqrt_floor_exists(de2);
}

/// Law: the CIEDE2000 difference is never negative, whatever the Lab
/// inputs.
pub proof fn lemma_ciede2000_nonneg(p: Lab, q: Lab)
    ensures
        ciede2000_spec(p, q) >= 0,
{
    reveal(ciede2000_spec);
    assert(0 <= p.a * p.a && 0 <= p.b * p.b && 0 <= q.a * q.a && 0 <= q.b * q.b)
        by (nonlinear_arith);
    crate::fixed::lemma_sqrt_floor_exists(p.a * p.a + p.b * p.b);
    crate::fixed::lemma_sqrt_floor_exists(q.a * q.a + q.b * q.b);
    let c1 = sqrt_floor(p.a * p.a + p.b * p.b);
    let c2 = sqrt_floor(q.a * q.a + q.b * q.b);
    vstd::arithmetic::div_mod::lemma_div_pos_is_pos(c1 + c2, 2);
    let avg_c = avg_chroma(p, q);
    assert(avg_c >= 0);
    lemma_chroma_ratio_sq_range(avg_c);
    let sq = chroma_ratio_sq(avg_c);
    let c1p = cprime(p.a as int, p.b as int, sq);
    let c2p = cprime(q.a as int, q.b as int, sq);
    let h1p = hprime(p.a as int, p.b as int, sq);
    let h2p = hprime(q.a as int, q.b as int, sq);
    let avg_hp = ciede_avg_hp(c1p, c2p, h1p, h2p);
    lemma_ciede_t_bound(avg_hp);
    lemma_ciede_rt_bound(sq, avg_hp);
    lemma_ciede_sl_pos(p.l as int, q.l as int);
    vstd::arithmetic::div_mod::lemma_div_pos_is_pos(45 * avg_c, 100);
    let t_e4 = ciede_t_e4(avg_hp);
    assert(0 <= 15 * avg_c * t_e4) by (nonlinear_arith)
        requires
            0 <= avg_c,
            0 <= t_e4,
    ;
    vstd::arithmetic::div_mod::lemma_div_pos_is_pos(15 * avg_c * t_e4, 1000000);
    assert(div0(15 * avg_c * t_e4, 1000000) >= 0);
    lemma_ciede_final_nonneg(
        q.l - p.l,
        c2p - c1p,
        ciede_dhp(c1p, c2p, h1p, h2p),
        ciede_sl_e4(p.l as int, q.l as int),
        10000 + (45 * avg_c) / 100,
        10000 + div0(15 * avg_c * t_e4, 1000000),
        ciede_rt_e4(sq, avg_hp),
    );
}

} // verus!
