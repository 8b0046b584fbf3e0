//! Edge-aware error diffusion: a raster Floyd-Steinberg pass whose tap
//! weights are steered by the local Sobel gradient of the working
//! snapshot, boosting diffusion along the edge tangent by up to a factor
//! of two so that error is not pushed across strong edges.
use vstd::prelude::*;

use crate::color::lab_of_rgb;
use crate::diffusion::clamp_byte;
use crate::fixed::div0;
use crate::fixed::div0_i64;
use crate::fixed::lemma_div0_quotient_bound;
use crate::grid::PixelGrid;
use crate::grid::Rgba;
use crate::kernel::floyd_steinberg_kernel;
use crate::kernel::floyd_steinberg_taps;
use crate::matcher::nearest;
use crate::matcher::nearest_idx;
use crate::matcher::Metric;
use crate::trig::abs1;

verus! {

/// Rec. 709 luma of a pixel, scaled by 10^4 per byte: 0 .. 2550000, where
/// 2550000 stands for full white.
pub open spec fn luma_u(p: Rgba) -> int {
    2126 * p.r + 7152 * p.g + 722 * p.b
}

/// The luma sample the Sobel operator reads at (x, y): zero outside the
/// grid.
pub open spec fn luma_sample(work: Seq<Rgba>, w: int, h: int, x: int, y: int) -> int {
    if 0 <= x < w && 0 <= y < h {
        luma_u(work[y * w + x])
    } else {
        0
    }
}

/// The horizontal Sobel response at (x, y).
pub open spec fn sobel_gx(work: Seq<Rgba>, w: int, h: int, x: int, y: int) -> int {
    -luma_sample(work, w, h, x - 1, y - 1) + luma_sample(work, w, h, x + 1, y - 1) - 2
        * luma_sample(work, w, h, x - 1, y) + 2 * luma_sample(work, w, h, x + 1, y)
        - luma_sample(work, w, h, x - 1, y + 1) + luma_sample(work, w, h, x + 1, y + 1)
}

/// The vertical Sobel response at (x, y).
pub open spec fn sobel_gy(work: Seq<Rgba>, w: int, h: int, x: int, y: int) -> int {
    -luma_sample(work, w, h, x - 1, y - 1) - 2 * luma_sample(work, w, h, x, y - 1)
        - luma_sample(work, w, h, x + 1, y - 1) + luma_sample(work, w, h, x - 1, y + 1) + 2
        * luma_sample(work, w, h, x, y + 1) + luma_sample(work, w, h, x + 1, y + 1)
}

/// The steering factor for a tap offset, at scale 10^4: when the gradient
/// magnitude exceeds the 0.01 cutoff, one plus the projection of the
/// offset onto the edge tangent, capped at two; else one.
pub open spec fn steer_e4(gx: int, gy: int, dx: int, dy: int) -> int {
    if gx * gx + gy * gy > 650250000 {
        let proj = abs1(dx * (-gy) + dy * gx);
        let s = 10000 + proj / 255;
        if s > 20000 {
            20000
        } else {
            s
        }
    } else {
        10000
    }
}

/// One channel after a steered tap: the error share `e * num / 16`,
/// scaled by the steering factor, truncated and clamped to a byte.
pub open spec fn edge_add_spec(c: int, e: int, num: int, steer: int) -> int {
    clamp_byte(c + div0(e * num * steer, 160000))
}

/// The working snapshot after the first `t` steered Floyd-Steinberg taps
/// distributed the error of the pixel at (x, y).
pub open spec fn edge_distribute_upto(
    work: Seq<Rgba>,
    w: int,
    h: int,
    x: int,
    y: int,
    er: int,
    eg: int,
    eb: int,
    gx: int,
    gy: int,
    t: int,
) -> Seq<Rgba>
    decreases t,
{
    if t <= 0 {
        work
    } else {
        let prev = edge_distribute_upto(work, w, h, x, y, er, eg, eb, gx, gy, t - 1);
        let tap = floyd_steinberg_taps()[t - 1];
        let nx = x + tap.dx;
        let ny = y + tap.dy;
        if 0 <= nx < w && 0 <= ny < h {
            let st = steer_e4(gx, gy, tap.dx as int, tap.dy as int);
            let i = ny * w + nx;
            let q = prev[i];
            prev.update(
                i,
                Rgba {
                    r: edge_add_spec(q.r as int, er, tap.num as int, st) as u8,
                    g: edge_add_spec(q.g as int, eg, tap.num as int, st) as u8,
                    b: edge_add_spec(q.b as int, eb, tap.num as int, st) as u8,
                    a: q.a,
                },
            )
        } else {
            prev
        }
    }
}

/// The pair (working snapshot, output) after the first `n` pixels of the
/// edge-aware pass, raster order: nearest color under CIEDE2000 into the
/// output, Sobel-steered error distribution into the working snapshot.
pub open spec fn edge_upto(img0: Seq<Rgba>, w: int, h: int, pal: Seq<[u8; 3]>, n: int) -> (
    Seq<Rgba>,
    Seq<Rgba>,
)
    decreases n,
{
    if n <= 0 {
        (img0, img0)
    } else {
        let prev = edge_upto(img0, w, h, pal, n - 1);
        let work = prev.0;
        let out = prev.1;
        let y = (n - 1) / w;
        let x = (n - 1) % w;
        let i = y * w + x;
        let src = work[i];
        let ci = nearest_idx(
            Metric::Ciede2000,
            lab_of_rgb(src.r as int, src.g as int, src.b as int),
            pal,
        );
        let ch = pal[ci];
        let out2 = out.update(i, Rgba { r: ch@[0], g: ch@[1], b: ch@[2], a: src.a });
        let gx = sobel_gx(work, w, h, x, y);
        let gy = sobel_gy(work, w, h, x, y);
        let work2 = edge_distribute_upto(
            work,
            w,
            h,
            x,
            y,
            src.r - ch@[0],
            src.g - ch@[1],
            src.b - ch@[2],
            gx,
            gy,
            4,
        );
        (work2, out2)
    }
}

/// The output of a whole edge-aware pass.
pub open spec fn edge_spec(img0: Seq<Rgba>, w: int, h: int, pal: Seq<[u8; 3]>) -> Seq<Rgba> {
    edge_upto(img0, w, h, pal, w * h).1
}

/// Exec luma sample; exact mirror of `luma_sample`.
fn sample_luma(work: &PixelGrid, x: i64, y: i64) -> (v: i64)
    requires
        work.wf(),
        work.width < 100000000,
        work.height < 100000000,
        -10 <= x,
        -10 <= y,
        x <= work.width + 10,
        y <= work.height + 10,
    ensures
        v == luma_sample(
            work.pixels(),
            work.width as int,
            work.height as int,
            x as int,
            y as int,
        ),
        0 <= v <= 2550000,
{
    if 0 <= x && x < work.width as i64 && 0 <= y && y < work.height as i64 {
        let p = work.get(x as usize, y as usize);
        2126 * (p.r as i64) + 7152 * (p.g as i64) + 722 * (p.b as i64)
    } else {
        0
    }
}

/// One steered channel update; exact mirror of `edge_add_spec`.
fn edge_add(c: u8, e: i64, num: i64, steer: i64) -> (r: u8)
    requires
        0 < num <= 7,
        -255 <= e <= 255,
        0 <= steer <= 20000,
    ensures
        r as int == edge_add_spec(c as int, e as int, num as int, steer as int),
{
    proof {
        assert(-1785 <= e * num <= 1785 && -35700000 <= e * num * steer <= 35700000 && -(255
            * 160000) <= e * num * steer <= 255 * 160000) by (nonlinear_arith)
            requires
                -255 <= e <= 255,
                0 < num <= 7,
                0 <= steer <= 20000,
        ;
        lemma_div0_quotient_bound(e as int * num as int * steer as int, 160000, 255);
    }
    let d = div0_i64(e * num * steer, 160000);
    let v = c as i64 + d;
    if v < 0 {
        0
    } else if v > 255 {
        255
    } else {
        v as u8
    }
}

/// Exec steering factor; exact mirror of `steer_e4`.
fn steer(gx: i64, gy: i64, dx: i64, dy: i64) -> (s: i64)
    requires
        -10200000 <= gx <= 10200000,
        -10200000 <= gy <= 10200000,
        -3 <= dx <= 3,
        0 <= dy <= 3,
    ensures
        s as int == steer_e4(gx as int, gy as int, dx as int, dy as int),
        0 <= s <= 20000,
{
    proof {
        assert(0 <= gx * gx <= 104040000000000i64 && 0 <= gy * gy <= 104040000000000i64
            && -31000000 <= dx * (-gy) <= 31000000 && -31000000 <= dy * gx <= 31000000
            && -62000000 <= dx * (-gy) + dy * gx <= 62000000) by (nonlinear_arith)
            requires
                -10200000 <= gx <= 10200000,
                -10200000 <= gy <= 10200000,
                -3 <= dx <= 3,
                0 <= dy <= 3,
        ;
    }
    if gx * gx + gy * gy > 650250000 {
        let pr = dx * (-gy) + dy * gx;
        let proj = if pr >= 0 {
            pr
        } else {
            -pr
        };
        proof {
            vstd::arithmetic::div_mod::lemma_div_pos_is_pos(proj as int, 255);
        }
        let s = 10000 + proj / 255;
        if s > 20000 {
            20000
        } else {
            s
        }
    } else {
        10000
    }
}

/// Run the edge-aware pass in place. An empty palette leaves the buffer
/// untouched; otherwise the result is exactly the `edge_spec` recurrence
/// over the original pixels.
pub fn apply_edge_dithering(img: &mut PixelGrid, palette: &Vec<[u8; 3]>)
    requires
        old(img).wf(),
        old(img).width < 100000000,
        old(img).height < 100000000,
    ensures
        final(img).wf(),
        final(img).width == old(img).width,
        final(img).height == old(img).height,
        palette@.len() == 0 ==> final(img).pixels() == old(img).pixels(),
        palette@.len() > 0 ==> final(img).pixels() == edge_spec(
            old(img).pixels(),
            old(img).width as int,
            old(img).height as int,
            palette@,
        ),
{
    if palette.len() == 0 {
        return ;
    }
    let ghost img0 = img.pixels();
    let ghost gw = img.width as int;
    let ghost gh = img.height as int;
    let w = img.width;
    let h = img.height;
    let mut work = img.duplicate();
    let fs = floyd_steinberg_kernel();
    let total = img.data.len();
    let mut n: usize = 0;
    while n < total
        invariant
            img.wf(),
            work.wf(),
            img.width == w,
            img.height == h,
            work.width == w,
            work.height == h,
            gw == w as int,
            gh == h as int,
            total == w * h,
            n <= total,
            w < 100000000,
            h < 100000000,
            palette@.len() > 0,
            fs.wf(),
            fs.taps@ == floyd_steinberg_taps(),
            img0.len() == total,
            (work.pixels(), img.pixels()) == edge_upto(img0, gw, gh, palette@, n as int),
        decreases total - n,
    {
        proof {
            if w == 0 {
                assert(w * h == 0) by (nonlinear_arith)
                    requires
                        w == 0,
                ;
            }
            vstd::arithmetic::div_mod::lemma_multiply_divide_lt(n as int, w as int, h as int);
            vstd::arithmetic::div_mod::lemma_mod_bound(n as int, w as int);
            vstd::arithmetic::div_mod::lemma_fundamental_div_mod(n as int, w as int);
        }
        let y = n / w;
        let x = n % w;
        let p = work.get(x, y);
        let chosen = nearest(p.r, p.g, p.b, palette, Metric::Ciede2000);
        img.set(x, y, Rgba { r: chosen[0], g: chosen[1], b: chosen[2], a: p.a });
        let er = p.r as i64 - chosen[0] as i64;
        let eg = p.g as i64 - chosen[1] as i64;
        let eb = p.b as i64 - chosen[2] as i64;
        let xi = x as i64;
        let yi = y as i64;
        let gx = -sample_luma(&work, xi - 1, yi - 1) + sample_luma(&work, xi + 1, yi - 1) - 2
            * sample_luma(&work, xi - 1, yi) + 2 * sample_luma(&work, xi + 1, yi) - sample_luma(
            &work,
            xi - 1,
            yi + 1,
        ) + sample_luma(&work, xi + 1, yi + 1);
        let gy = -sample_luma(&work, xi - 1, yi - 1) - 2 * sample_luma(&work, xi, yi - 1)
            - sample_luma(&work, xi + 1, yi - 1) + sample_luma(&work, xi - 1, yi + 1) + 2
            * sample_luma(&work, xi, yi + 1) + sample_luma(&work, xi + 1, yi + 1);
        let ghost wstart = work.pixels();
        let mut t: usize = 0;
        while t < 4
            invariant
                work.wf(),
                work.width == w,
                work.height == h,
                gw == w as int,
                gh == h as int,
                fs.wf(),
                fs.taps@ == floyd_steinberg_taps(),
                t <= 4,
                x < w,
                y < h,
                w < 100000000,
                h < 100000000,
                -255 <= er <= 255,
                -255 <= eg <= 255,
                -255 <= eb <= 255,
                -10200000 <= gx <= 10200000,
                -10200000 <= gy <= 10200000,
                gx as int == sobel_gx(wstart, gw, gh, x as int, y as int),
                gy as int == sobel_gy(wstart, gw, gh, x as int, y as int),
                work.pixels() == edge_distribute_upto(
                    wstart,
                    gw,
                    gh,
                    x as int,
                    y as int,
                    er as int,
                    eg as int,
                    eb as int,
                    gx as int,
                    gy as int,
                    t as int,
                ),
            decreases 4 - t,
        {
            let tap = fs.taps[t];
            proof {
                assert(fs.taps@[t as int] == tap);
            }
            let nx = x as i64 + tap.dx;
            let ny = y as i64 + tap.dy;
            if 0 <= nx && nx < w as i64 && 0 <= ny && ny < h as i64 {
                let st = steer(gx, gy, tap.dx, tap.dy);
                let q = work.get(nx as usize, ny as usize);
                let nr = edge_add(q.r, er, tap.num, st);
                let ng = edge_add(q.g, eg, tap.num, st);
                let nb = edge_add(q.b, eb, tap.num, st);
                work.set(nx as usize, ny as usize, Rgba { r: nr, g: ng, b: nb, a: q.a });
            }
            t = t + 1;
        }
        n = n + 1;
    }
}


/// Steered error distribution never touches the alpha channel or the
/// buffer length.
pub proof fn lemma_edge_distribute_alpha(
    work: Seq<Rgba>,
    w: int,
    h: int,
    x: int,
    y: int,
    er: int,
    eg: int,
    eb: int,
    gx: int,
    gy: int,
    t: int,
)
    requires
        work.len() == w * h,
    ensures
        edge_distribute_upto(work, w, h, x, y, er, eg, eb, gx, gy, t).len() == work.len(),
        forall|k: int|
            0 <= k < work.len() ==> edge_distribute_upto(
                work,
                w,
                h,
                x,
                y,
                er,
                eg,
                eb,
                gx,
                gy,
                t,
            )[k].a == work[k].a,
    decreases t,
{
    if t > 0 {
        lemma_edge_distribute_alpha(work, w, h, x, y, er, eg, eb, gx, gy, t - 1);
        let tap = floyd_steinberg_taps()[t - 1];
        let nx = x + tap.dx;
        let ny = y + tap.dy;
        if 0 <= nx < w && 0 <= ny < h {
            assert(ny * w + nx < h * w && 0 <= ny * w + nx && h * w == w * h)
                by (nonlinear_arith)
                requires
                    0 <= nx < w,
                    0 <= ny < h,
            ;
        }
    }
}

/// The edge-aware pass preserves every pixel's alpha channel and the
/// buffer length, in both the working snapshot and the output.
pub proof fn lemma_edge_alpha(img0: Seq<Rgba>, w: int, h: int, pal: Seq<[u8; 3]>, n: int)
    requires
        0 <= w,
        0 <= h,
        img0.len() == w * h,
        0 <= n <= w * h,
    ensures
        edge_upto(img0, w, h, pal, n).0.len() == img0.len(),
        edge_upto(img0, w, h, pal, n).1.len() == img0.len(),
        forall|k: int|
            0 <= k < img0.len() ==> edge_upto(img0, w, h, pal, n).0[k].a == img0[k].a,
        forall|k: int|
            0 <= k < img0.len() ==> edge_upto(img0, w, h, pal, n).1[k].a == img0[k].a,
    decreases n,
{
    if n > 0 {
        lemma_edge_alpha(img0, w, h, pal, n - 1);
        let prev = edge_upto(img0, w, h, pal, n - 1);
        assert(w > 0) by (nonlinear_arith)
            requires
                0 < n <= w * h,
                0 <= w,
                0 <= h,
        ;
        let y = (n - 1) / w;
        let x = (n - 1) % w;
        vstd::arithmetic::div_mod::lemma_multiply_divide_lt(n - 1, w, h);
        assert(w * h == h * w) by (nonlinear_arith);
        vstd::arithmetic::div_mod::lemma_mod_bound(n - 1, w);
        assert(0 <= y * w + x < w * h && prev.0.len() == w * h) by (nonlinear_arith)
            requires
                0 <= y < h,
                0 <= x < w,
                prev.0.len() == w * h,
        ;
        let src = prev.0[y * w + x];
        let ch = pal[nearest_idx(
            Metric::Ciede2000,
            lab_of_rgb(src.r as int, src.g as int, src.b as int),
            pal,
        )];
        lemma_edge_distribute_alpha(
            prev.0,
            w,
            h,
            x,
            y,
            src.r - ch@[0],
            src.g - ch@[1],
            src.b - ch@[2],
            sobel_gx(prev.0, w, h, x, y),
            sobel_gy(prev.0, w, h, x, y),
            4,
        );
    }
}


/// Distributing a zero error through the steered taps changes nothing.
proof fn lemma_edge_distribute_zero(
    work: Seq<Rgba>,
    w: int,
    h: int,
    x: int,
    y: int,
    gx: int,
    gy: int,
    t: int,
)
    requires
        work.len() == w * h,
    ensures
        edge_distribute_upto(work, w, h, x, y, 0, 0, 0, gx, gy, t) == work,
    decreases t,
{
    if t > 0 {
        lemma_edge_distribute_zero(work, w, h, x, y, gx, gy, t - 1);
        let tap = floyd_steinberg_taps()[t - 1];
        let nx = x + tap.dx;
        let ny = y + tap.dy;
        if 0 <= nx < w && 0 <= ny < h {
            assert(ny * w + nx < h * w && 0 <= ny * w + nx && h * w == w * h)
                by (nonlinear_arith)
                requires
                    0 <= nx < w,
                    0 <= ny < h,
            ;
            let st = crate::edge::steer_e4(gx, gy, tap.dx as int, tap.dy as int);
            let i = ny * w + nx;
            let q = work[i];
            assert(0 * (tap.num as int) * st == 0) by (nonlinear_arith);
            vstd::arithmetic::div_mod::lemma_div_of0(160000);
            assert(edge_add_spec(q.r as int, 0, tap.num as int, st) == q.r);
            assert(edge_add_spec(q.g as int, 0, tap.num as int, st) == q.g);
            assert(edge_add_spec(q.b as int, 0, tap.num as int, st) == q.b);
            assert(work.update(
                i,
                Rgba {
                    r: edge_add_spec(q.r as int, 0, tap.num as int, st) as u8,
                    g: edge_add_spec(q.g as int, 0, tap.num as int, st) as u8,
                    b: edge_add_spec(q.b as int, 0, tap.num as int, st) as u8,
                    a: q.a,
                },
            ) =~= work);
        }
    }
}

proof fn lemma_edge_identity(img0: Seq<Rgba>, w: int, h: int, pal: Seq<[u8; 3]>, n: int)
    requires
        0 <= w,
        0 <= h,
        img0.len() == w * h,
        0 <= n <= w * h,
        pal.len() > 0,
        crate::diffusion::all_pixels_in_palette(img0, pal),
        crate::diffusion::palette_metric_distinct(pal),
    ensures
        edge_upto(img0, w, h, pal, n) == (img0, img0),
    decreases n,
{
    if n > 0 {
        lemma_edge_identity(img0, w, h, pal, n - 1);
        assert(w > 0) by (nonlinear_arith)
            requires
                0 < n <= w * h,
                0 <= w,
                0 <= h,
        ;
        let y = (n - 1) / w;
        let x = (n - 1) % w;
        vstd::arithmetic::div_mod::lemma_multiply_divide_lt(n - 1, w, h);
        assert(w * h == h * w) by (nonlinear_arith);
        vstd::arithmetic::div_mod::lemma_mod_bound(n - 1, w);
        let i = y * w + x;
        assert(0 <= i < w * h) by (nonlinear_arith)
            requires
                0 <= y < h,
                0 <= x < w,
                i == y * w + x,
        ;
        let src = img0[i];
        let j = choose|j: int|
            0 <= j < pal.len() && crate::diffusion::pixel_matches(img0[i], pal[j]);
        let srclab = lab_of_rgb(src.r as int, src.g as int, src.b as int);
        assert(srclab == crate::matcher::rgb_lab(pal[j]));
        let ci = nearest_idx(Metric::Ciede2000, srclab, pal);
        crate::matcher::lemma_nearest_minimizes(Metric::Ciede2000, srclab, pal);
        crate::color::lemma_ciede2000_reflexive(crate::matcher::rgb_lab(pal[j]));
        crate::color::lemma_ciede2000_nonneg(srclab, crate::matcher::rgb_lab(pal[ci]));
        assert(crate::matcher::pal_dist(Metric::Ciede2000, srclab, pal[ci]) == 0);
        assert(ci == j);
        let ch = pal[ci];
        assert(Rgba { r: ch@[0], g: ch@[1], b: ch@[2], a: src.a } == src);
        assert(img0.update(i, Rgba { r: ch@[0], g: ch@[1], b: ch@[2], a: src.a }) =~= img0);
        lemma_edge_distribute_zero(
            img0,
            w,
            h,
            x,
            y,
            sobel_gx(img0, w, h, x, y),
            sobel_gy(img0, w, h, x, y),
            4,
        );
        assert(src.r - ch@[0] == 0 && src.g - ch@[1] == 0 && src.b - ch@[2] == 0);
    }
}

/// Law: the edge-aware pass, like the plain kernels, reproduces an image
/// whose pixels already equal palette entries exactly, provided no two
/// palette entries sit at CIEDE2000 distance zero from one another.
pub proof fn lemma_edge_round_trip(img0: Seq<Rgba>, w: int, h: int, pal: Seq<[u8; 3]>)
    requires
        0 <= w,
        0 <= h,
        img0.len() == w * h,
        pal.len() > 0,
        crate::diffusion::all_pixels_in_palette(img0, pal),
        crate::diffusion::palette_metric_distinct(pal),
    ensures
        edge_spec(img0, w, h, pal) == img0,
{
    lemma_edge_identity(img0, w, h, pal, w * h);
}

} // verus!
