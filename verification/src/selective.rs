//! Threshold-gated selective passes: when the nearest-color distance
//! exceeds a threshold, the pixel picks between the two nearest palette
//! colors using a secondary signal — an 8x8 ordered matrix cell, or a
//! deterministic integer hash of the pixel position — otherwise it takes
//! the nearest color outright. The plain selective pass always takes the
//! nearest color: its threshold test selects between two identical
//! writes, which keeps it a pure nearest-color substitution.
use vstd::prelude::*;

use crate::color::lab_of_rgb;
use crate::grid::PixelGrid;
use crate::grid::Rgba;
use crate::matcher::apply_nearest_pass;
use crate::matcher::nearest_idx;
use crate::matcher::nearest_pixel;
use crate::matcher::pal_dist;
use crate::matcher::two_closest_with_dist;
use crate::matcher::Metric;
use crate::ordered::ordered8_cell;
use crate::ordered::ordered8_cell_exec;
use crate::ordered::second_color;

verus! {

/// Nearest-color substitution under Euclidean Lab distance, whatever the
/// threshold: in this variant both branches write the same color.
pub fn apply_selective(img: &mut PixelGrid, palette: &Vec<[u8; 3]>, threshold: i64)
    requires
        old(img).wf(),
    ensures
        final(img).wf(),
        final(img).width == old(img).width,
        final(img).height == old(img).height,
        palette@.len() == 0 ==> final(img).pixels() == old(img).pixels(),
        palette@.len() > 0 ==> forall|k: int|
            0 <= k < old(img).pixels().len() ==> final(img).pixels()[k] == nearest_pixel(
                Metric::Euclid,
                palette@,
                old(img).pixels()[k],
            ),
{
    apply_nearest_pass(img, palette, Metric::Euclid);
}

/// The distance of a pixel to its nearest palette entry.
pub open spec fn d1_of(pal: Seq<[u8; 3]>, src: crate::color::Lab) -> int {
    pal_dist(Metric::Euclid, src, pal[nearest_idx(Metric::Euclid, src, pal)])
}

/// The distance of a pixel to its second-nearest palette entry (to the
/// nearest one on a single-entry palette).
pub open spec fn d2_of(pal: Seq<[u8; 3]>, src: crate::color::Lab) -> int {
    pal_dist(Metric::Euclid, src, second_color(Metric::Euclid, pal, src))
}

/// Whether the secondary signal `t` (scaled over `t_den`) exceeds the
/// distance ratio `d1 / (d1 + d2)`, compared exactly over the common
/// denominators; for two zero distances the ratio counts as one half.
pub open spec fn beats_ratio(t: int, t_den: int, d1: int, d2: int) -> bool {
    if d1 + d2 > 0 {
        t * (d1 + d2) > t_den * d1
    } else {
        2 * t > t_den
    }
}

/// The ordered-selective decision for one pixel: above the threshold the
/// 8x8 ordered matrix cell (normalized over 64) picks the second-nearest
/// color when it beats the distance ratio; otherwise, and below the
/// threshold, the nearest color wins. Alpha is kept.
pub open spec fn ordered_selective_pixel(
    pal: Seq<[u8; 3]>,
    p: Rgba,
    x: int,
    y: int,
    threshold: int,
) -> Rgba {
    if pal.len() == 0 {
        p
    } else {
        let src = lab_of_rgb(p.r as int, p.g as int, p.b as int);
        let c1 = pal[nearest_idx(Metric::Euclid, src, pal)];
        let c2 = second_color(Metric::Euclid, pal, src);
        let d1 = d1_of(pal, src);
        let d2 = d2_of(pal, src);
        let ch = if d1 > threshold && beats_ratio(ordered8_cell(x, y), 64, d1, d2) {
            c2
        } else {
            c1
        };
        Rgba { r: ch@[0], g: ch@[1], b: ch@[2], a: p.a }
    }
}

/// The deterministic position hash of the randomized pass: an integer
/// xorshift mix of (x, y, seed), reduced to 31 bits. Wrapping arithmetic
/// is stated through the standard wrapping specifications.
pub open spec fn blue_noise_u(x: u32, y: u32, seed: u32) -> u32 {
    let n0 = vstd::wrapping::u32_specs::wrapping_add(
        vstd::wrapping::u32_specs::wrapping_add(
            vstd::wrapping::u32_specs::wrapping_mul(x, 73),
            vstd::wrapping::u32_specs::wrapping_mul(y, 37),
        ),
        seed,
    );
    let n1 = n0 ^ (n0 << 13);
    let m2 = vstd::wrapping::u32_specs::wrapping_add(
        vstd::wrapping::u32_specs::wrapping_mul(
            n1,
            vstd::wrapping::u32_specs::wrapping_add(
                vstd::wrapping::u32_specs::wrapping_mul(n1, 15731),
                789221,
            ),
        ),
        1376312589,
    );
    let n2 = vstd::wrapping::u32_specs::wrapping_sub(n1, m2);
    n2 & 0x7fffffff
}

/// Exec position hash; exact mirror of `blue_noise_u`.
pub fn blue_noise(x: u32, y: u32, seed: u32) -> (v: u32)
    ensures
        v == blue_noise_u(x, y, seed),
        v <= 0x7fffffff,
{
    let n0 = x.wrapping_mul(73).wrapping_add(y.wrapping_mul(37)).wrapping_add(seed);
    let n1 = n0 ^ (n0 << 13);
    let m1 = n1.wrapping_mul(15731).wrapping_add(789221);
    let m2 = n1.wrapping_mul(m1).wrapping_add(1376312589);
    let n2 = n1.wrapping_sub(m2);
    let v = n2 & 0x7fffffff;
    proof {
        assert(n2 & 0x7fffffff <= 0x7fffffff) by (bit_vector);
    }
    v
}

/// The randomized-selective decision for one pixel: above the threshold
/// the position hash (normalized over 2^31 - 1) picks the second-nearest
/// color when it beats the distance ratio. Alpha is kept.
pub open spec fn randomized_selective_pixel(
    pal: Seq<[u8; 3]>,
    p: Rgba,
    x: int,
    y: int,
    threshold: int,
    seed: int,
) -> Rgba {
    if pal.len() == 0 {
        p
    } else {
        let src = lab_of_rgb(p.r as int, p.g as int, p.b as int);
        let c1 = pal[nearest_idx(Metric::Euclid, src, pal)];
        let c2 = second_color(Metric::Euclid, pal, src);
        let d1 = d1_of(pal, src);
        let d2 = d2_of(pal, src);
        let ch = if d1 > threshold && beats_ratio(
            blue_noise_u(x as u32, y as u32, seed as u32) as int,
            0x7fffffff,
            d1,
            d2,
        ) {
            c2
        } else {
            c1
        };
        Rgba { r: ch@[0], g: ch@[1], b: ch@[2], a: p.a }
    }
}

/// Run the ordered-selective pass in place: every pixel becomes exactly
/// `ordered_selective_pixel` of its original value and position. The
/// threshold is in milli-units of Euclidean Lab distance.
pub fn apply_ordered_selective(img: &mut PixelGrid, palette: &Vec<[u8; 3]>, threshold: i64)
    requires
        old(img).wf(),
        0 <= threshold <= 10000000,
    ensures
        final(img).wf(),
        final(img).width == old(img).width,
        final(img).height == old(img).height,
        palette@.len() == 0 ==> final(img).pixels() == old(img).pixels(),
        palette@.len() > 0 ==> forall|k: int|
            0 <= k < old(img).pixels().len() ==> final(img).pixels()[k]
                == ordered_selective_pixel(
                palette@,
                old(img).pixels()[k],
                k % (old(img).width as int),
                k / (old(img).width as int),
                threshold as int,
            ),
{
    if palette.len() == 0 {
        return ;
    }
    let ghost img0 = img.pixels();
    let w = img.width;
    let total = img.data.len();
    let mut n: usize = 0;
    while n < total
        invariant
            n <= total,
            total == img0.len(),
            img.pixels().len() == img0.len(),
            img.width == w,
            img.height == old(img).height,
            img.wf(),
            total == w * img.height,
            palette@.len() > 0,
            0 <= threshold <= 10000000,
            forall|k: int|
                0 <= k < n ==> img.pixels()[k] == ordered_selective_pixel(
                    palette@,
                    img0[k],
                    k % (w as int),
                    k / (w as int),
                    threshold as int,
                ),
            forall|k: int| n <= k < total ==> img.pixels()[k] == img0[k],
        decreases total - n,
    {
        proof {
            if w == 0 {
                assert(w * img.height == 0) by (nonlinear_arith)
                    requires
                        w == 0,
                ;
            }
        }
        let x = n % w;
        let y = n / w;
        let p = img.get_flat(n);
        let (c1, d1, c2, d2) = two_closest_with_dist(p.r, p.g, p.b, palette, Metric::Euclid);
        let cell = ordered8_cell_exec(x, y) as i64;
        let pick2 = if d1 > threshold {
            if d1 + d2 > 0 {
                proof {
                    assert(cell * (d1 + d2) <= 64 * 20000000i64) by (nonlinear_arith)
                        requires
                            0 <= cell < 64,
                            0 <= d1 + d2 <= 20000000i64,
                    ;
                }
                cell * (d1 + d2) > 64 * d1
            } else {
                2 * cell > 64
            }
        } else {
            false
        };
        let ch = if pick2 {
            c2
        } else {
            c1
        };
        img.set_flat(n, Rgba { r: ch[0], g: ch[1], b: ch[2], a: p.a });
        n = n + 1;
    }
}

/// Run the randomized-selective pass in place with the engine's fixed
/// seed: every pixel becomes exactly `randomized_selective_pixel` of its
/// original value and position under seed 12345.
pub fn apply_randomized_selective(img: &mut PixelGrid, palette: &Vec<[u8; 3]>, threshold: i64)
    requires
        old(img).wf(),
        0 <= threshold <= 10000000,
        old(img).width < 0x100000000,
        old(img).height < 0x100000000,
    ensures
        final(img).wf(),
        final(img).width == old(img).width,
        final(img).height == old(img).height,
        palette@.len() == 0 ==> final(img).pixels() == old(img).pixels(),
        palette@.len() > 0 ==> forall|k: int|
            0 <= k < old(img).pixels().len() ==> final(img).pixels()[k]
                == randomized_selective_pixel(
                palette@,
                old(img).pixels()[k],
                k % (old(img).width as int),
                k / (old(img).width as int),
                threshold as int,
                12345,
            ),
{
    if palette.len() == 0 {
        return ;
    }
    let ghost img0 = img.pixels();
    let w = img.width;
    let total = img.data.len();
    let mut n: usize = 0;
    while n < total
        invariant
            n <= total,
            total == img0.len(),
            img.pixels().len() == img0.len(),
            img.width == w,
            img.height == old(img).height,
            img.wf(),
            total == w * img.height,
            w < 0x100000000,
            img.height < 0x100000000,
            palette@.len() > 0,
            0 <= threshold <= 10000000,
            forall|k: int|
                0 <= k < n ==> img.pixels()[k] == randomized_selective_pixel(
                    palette@,
                    img0[k],
                    k % (w as int),
                    k / (w as int),
                    threshold as int,
                    12345,
                ),
            forall|k: int| n <= k < total ==> img.pixels()[k] == img0[k],
        decreases total - n,
    {
        proof {
            if w == 0 {
                assert(w * img.height == 0) by (nonlinear_arith)
                    requires
                        w == 0,
                ;
            }
            vstd::arithmetic::div_mod::lemma_mod_bound(n as int, w as int);
            vstd::arithmetic::div_mod::lemma_multiply_divide_lt(n as int, w as int, img.height as int);
            assert(w as int * img.height as int == total as int);
        }
        let x = n % w;
        let y = n / w;
        let p = img.get_flat(n);
        let (c1, d1, c2, d2) = two_closest_with_dist(p.r, p.g, p.b, palette, Metric::Euclid);
        let noise = blue_noise(x as u32, y as u32, 12345) as i64;
        let pick2 = if d1 > threshold {
            if d1 + d2 > 0 {
                proof {
                    assert(noise * (d1 + d2) <= 0x7fffffffi64 * 20000000i64)
                        by (nonlinear_arith)
                        requires
                            0 <= noise <= 0x7fffffffi64,
                            0 <= d1 + d2 <= 20000000i64,
                    ;
                    assert(0x7fffffffi64 * d1 <= 0x7fffffffi64 * 20000000i64)
                        by (nonlinear_arith)
                        requires
                            0 <= d1 <= 20000000i64,
                    ;
                }
                noise * (d1 + d2) > 0x7fffffff * d1
            } else {
                2 * noise > 0x7fffffff
            }
        } else {
            false
        };
        let ch = if pick2 {
            c2
        } else {
            c1
        };
        img.set_flat(n, Rgba { r: ch[0], g: ch[1], b: ch[2], a: p.a });
        n = n + 1;
    }
}

} // verus!
