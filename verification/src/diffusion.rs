//! The error-diffusion engine. It runs a kernel over the image with the
//! two-buffer discipline: a working snapshot of the source accumulates
//! propagated error, the caller's buffer receives finalized palette colors
//! in scan order, and a finalized pixel is never touched again. The whole
//! pass is specified by the `diffuse_upto` recurrence, and the exec engine
//! returns exactly that sequence.
use vstd::prelude::*;

use crate::color::lab_of_rgb;
use crate::fixed::div0;
use crate::fixed::div0_i64;
use crate::fixed::lemma_div0_quotient_bound;
use crate::grid::PixelGrid;
use crate::grid::Rgba;
use crate::kernel::atkinson_kernel;
use crate::kernel::burkes_kernel;
use crate::kernel::eff_dx;
use crate::kernel::floyd_steinberg_kernel;
use crate::kernel::jarvis_judice_ninke_kernel;
use crate::kernel::sierra_kernel;
use crate::kernel::sierra_lite_kernel;
use crate::kernel::stucki_kernel;
use crate::kernel::two_row_sierra_kernel;
use crate::kernel::DiffusionKernel;
use crate::kernel::KernelTap;
use crate::matcher::nearest;
use crate::matcher::nearest_idx;
use crate::matcher::Metric;

verus! {

/// Clamp an integer to the byte range before storage; no wraparound.
pub open spec fn clamp_byte(v: int) -> int {
    if v < 0 {
        0
    } else if v > 255 {
        255
    } else {
        v
    }
}

/// One channel after receiving its share of the error: the truncated
/// fraction `e * num / den` is added and the sum clamped to a byte.
pub open spec fn add_err_spec(c: int, e: int, num: int, den: int) -> int {
    clamp_byte(c + div0(e * num, den))
}

/// The working snapshot after the first `t` kernel taps have distributed
/// the error of the pixel at (x, y); out-of-bounds taps change nothing,
/// and alpha is never touched.
pub open spec fn distribute_upto(
    work: Seq<Rgba>,
    w: int,
    h: int,
    x: int,
    y: int,
    er: int,
    eg: int,
    eb: int,
    taps: Seq<KernelTap>,
    serp: bool,
    den: int,
    t: int,
) -> Seq<Rgba>
    decreases t,
{
    if t <= 0 {
        work
    } else {
        let prev = distribute_upto(work, w, h, x, y, er, eg, eb, taps, serp, den, t - 1);
        let tap = taps[t - 1];
        let nx = x + eff_dx(serp, y, tap.dx as int);
        let ny = y + tap.dy;
        if 0 <= nx < w && 0 <= ny < h {
            let i = ny * w + nx;
            let q = prev[i];
            prev.update(
                i,
                Rgba {
                    r: add_err_spec(q.r as int, er, tap.num as int, den) as u8,
                    g: add_err_spec(q.g as int, eg, tap.num as int, den) as u8,
                    b: add_err_spec(q.b as int, eb, tap.num as int, den) as u8,
                    a: q.a,
                },
            )
        } else {
            prev
        }
    }
}

/// The column visited at step `xi` of row `y`: right-to-left on odd rows
/// of a serpentine scan.
pub open spec fn scan_x(serp: bool, w: int, y: int, xi: int) -> int {
    if serp && y % 2 == 1 {
        w - 1 - xi
    } else {
        xi
    }
}

/// The pair (working snapshot, output) after the first `n` pixels of the
/// pass: each step reads the working snapshot, writes the nearest palette
/// color (under CIEDE2000) with the source alpha into the output, and
/// distributes the signed quantization error through the kernel into the
/// working snapshot only.
pub open spec fn diffuse_upto(
    img0: Seq<Rgba>,
    w: int,
    h: int,
    pal: Seq<[u8; 3]>,
    taps: Seq<KernelTap>,
    serp: bool,
    den: int,
    n: int,
) -> (Seq<Rgba>, Seq<Rgba>)
    decreases n,
{
    if n <= 0 {
        (img0, img0)
    } else {
        let prev = diffuse_upto(img0, w, h, pal, taps, serp, den, n - 1);
        let work = prev.0;
        let out = prev.1;
        let y = (n - 1) / w;
        let x = scan_x(serp, w, y, (n - 1) % w);
        let i = y * w + x;
        let src = work[i];
        let ci = nearest_idx(
            Metric::Ciede2000,
            lab_of_rgb(src.r as int, src.g as int, src.b as int),
            pal,
        );
        let ch = pal[ci];
        let out2 = out.update(i, Rgba { r: ch@[0], g: ch@[1], b: ch@[2], a: src.a });
        let work2 = distribute_upto(
            work,
            w,
            h,
            x,
            y,
            src.r - ch@[0],
            src.g - ch@[1],
            src.b - ch@[2],
            taps,
            serp,
            den,
            taps.len() as int,
        );
        (work2, out2)
    }
}

/// The output buffer of a whole error-diffusion pass.
pub open spec fn diffuse_spec(
    img0: Seq<Rgba>,
    w: int,
    h: int,
    pal: Seq<[u8; 3]>,
    taps: Seq<KernelTap>,
    serp: bool,
    den: int,
) -> Seq<Rgba> {
    diffuse_upto(img0, w, h, pal, taps, serp, den, w * h).1
}

/// One channel update; exact mirror of `add_err_spec`.
fn add_err(c: u8, e: i64, num: i64, den: i64) -> (r: u8)
    requires
        0 < den <= 100,
        0 < num <= den,
        -255 <= e <= 255,
    ensures
        r as int == add_err_spec(c as int, e as int, num as int, den as int),
{
    proof {
        assert(-25500 <= e * num <= 25500 && -(255 * den) <= e * num <= 255 * den)
            by (nonlinear_arith)
            requires
                -255 <= e <= 255,
                0 < num <= den <= 100,
        ;
        lemma_div0_quotient_bound(e as int * num as int, den as int, 255);
    }
    let d = div0_i64(e * num, den);
    let v = c as i64 + d;
    if v < 0 {
        0
    } else if v > 255 {
        255
    } else {
        v as u8
    }
}

/// Run an error-diffusion kernel over the grid in place. An empty palette
/// leaves the buffer untouched; otherwise the result is exactly the
/// `diffuse_spec` recurrence over the original pixels.
pub fn apply_diffusion(img: &mut PixelGrid, palette: &Vec<[u8; 3]>, kernel: &DiffusionKernel)
    requires
        old(img).wf(),
        old(img).width < 100000000,
        old(img).height < 100000000,
        kernel.wf(),
    ensures
        final(img).wf(),
        final(img).width == old(img).width,
        final(img).height == old(img).height,
        palette@.len() == 0 ==> final(img).pixels() == old(img).pixels(),
        palette@.len() > 0 ==> final(img).pixels() == diffuse_spec(
            old(img).pixels(),
            old(img).width as int,
            old(img).height as int,
            palette@,
            kernel.taps@,
            kernel.serpentine,
            kernel.den as int,
        ),
{
    if palette.len() == 0 {
        return ;
    }
    let ghost img0 = img.pixels();
    let ghost gw = img.width as int;
    let ghost gh = img.height as int;
    let w = img.width;
    let h = img.height;
    let mut work = img.duplicate();
    let total = img.data.len();
    let mut n: usize = 0;
    while n < total
        invariant
            img.wf(),
            work.wf(),
            img.width == w,
            img.height == h,
            work.width == w,
            work.height == h,
            gw == w as int,
            gh == h as int,
            total == w * h,
            n <= total,
            w < 100000000,
            h < 100000000,
            palette@.len() > 0,
            kernel.wf(),
            img0.len() == total,
            (work.pixels(), img.pixels()) == diffuse_upto(
                img0,
                gw,
                gh,
                palette@,
                kernel.taps@,
                kernel.serpentine,
                kernel.den as int,
                n as int,
            ),
        decreases total - n,
    {
        proof {
            if w == 0 {
                assert(w * h == 0) by (nonlinear_arith)
                    requires
                        w == 0,
                ;
            }
            assert(w as int * h as int == (w * h) as int);
            vstd::arithmetic::div_mod::lemma_multiply_divide_lt(n as int, w as int, h as int);
            vstd::arithmetic::div_mod::lemma_mod_bound(n as int, w as int);
            vstd::arithmetic::div_mod::lemma_fundamental_div_mod(n as int, w as int);
        }
        let y = n / w;
        let xi = n % w;
        let x = if kernel.serpentine && y % 2 == 1 {
            w - 1 - xi
        } else {
            xi
        };
        proof {
            assert(x as int == scan_x(kernel.serpentine, gw, y as int, xi as int));
        }
        let p = work.get(x, y);
        let chosen = nearest(p.r, p.g, p.b, palette, Metric::Ciede2000);
        img.set(x, y, Rgba { r: chosen[0], g: chosen[1], b: chosen[2], a: p.a });
        let er = p.r as i64 - chosen[0] as i64;
        let eg = p.g as i64 - chosen[1] as i64;
        let eb = p.b as i64 - chosen[2] as i64;
        let ghost wstart = work.pixels();
        let ntaps = kernel.taps.len();
        let mut t: usize = 0;
        while t < ntaps
            invariant
                work.wf(),
                work.width == w,
                work.height == h,
                gw == w as int,
                gh == h as int,
                kernel.wf(),
                t <= ntaps,
                ntaps == kernel.taps@.len(),
                x < w,
                y < h,
                w < 100000000,
                h < 100000000,
                -255 <= er <= 255,
                -255 <= eg <= 255,
                -255 <= eb <= 255,
                work.pixels() == distribute_upto(
                    wstart,
                    gw,
                    gh,
                    x as int,
                    y as int,
                    er as int,
                    eg as int,
                    eb as int,
                    kernel.taps@,
                    kernel.serpentine,
                    kernel.den as int,
                    t as int,
                ),
            decreases ntaps - t,
        {
            let tap = kernel.taps[t];
            proof {
                assert(kernel.taps@[t as int] == tap);
            }
            let dx = if kernel.serpentine && y % 2 == 1 {
                -tap.dx
            } else {
                tap.dx
            };
            let nx = x as i64 + dx;
            let ny = y as i64 + tap.dy;
            if 0 <= nx && nx < w as i64 && 0 <= ny && ny < h as i64 {
                let q = work.get(nx as usize, ny as usize);
                let nr = add_err(q.r, er, tap.num, kernel.den);
                let ng = add_err(q.g, eg, tap.num, kernel.den);
                let nb = add_err(q.b, eb, tap.num, kernel.den);
                work.set(nx as usize, ny as usize, Rgba { r: nr, g: ng, b: nb, a: q.a });
            }
            t = t + 1;
        }
        n = n + 1;
    }
}

/// Floyd-Steinberg error diffusion over the grid: exactly the `diffuse_spec`
/// recurrence under the Floyd-Steinberg tap table.
pub fn apply_floyd_steinberg(img: &mut PixelGrid, palette: &Vec<[u8; 3]>)
    requires
        old(img).wf(),
        old(img).width < 100000000,
        old(img).height < 100000000,
    ensures
        final(img).wf(),
        final(img).width == old(img).width,
        final(img).height == old(img).height,
        palette@.len() == 0 ==> final(img).pixels() == old(img).pixels(),
        palette@.len() > 0 ==> final(img).pixels() == diffuse_spec(
            old(img).pixels(),
            old(img).width as int,
            old(img).height as int,
            palette@,
            crate::kernel::floyd_steinberg_taps(),
            false,
            16,
        ),
{
    let k = floyd_steinberg_kernel();
    apply_diffusion(img, palette, &k);
}

/// Atkinson error diffusion over the grid: exactly the `diffuse_spec`
/// recurrence under the Atkinson tap table.
pub fn apply_atkinson(img: &mut PixelGrid, palette: &Vec<[u8; 3]>)
    requires
        old(img).wf(),
        old(img).width < 100000000,
        old(img).height < 100000000,
    ensures
        final(img).wf(),
        final(img).width == old(img).width,
        final(img).height == old(img).height,
        palette@.len() == 0 ==> final(img).pixels() == old(img).pixels(),
        palette@.len() > 0 ==> final(img).pixels() == diffuse_spec(
            old(img).pixels(),
            old(img).width as int,
            old(img).height as int,
            palette@,
            crate::kernel::atkinson_taps(),
            false,
            8,
        ),
{
    let k = atkinson_kernel();
    apply_diffusion(img, palette, &k);
}

/// Stucki error diffusion over the grid: exactly the `diffuse_spec`
/// recurrence under the Stucki tap table.
pub fn apply_stucki(img: &mut PixelGrid, palette: &Vec<[u8; 3]>)
    requires
        old(img).wf(),
        old(img).width < 100000000,
        old(img).height < 100000000,
    ensures
        final(img).wf(),
        final(img).width == old(img).width,
        final(img).height == old(img).height,
        palette@.len() == 0 ==> final(img).pixels() == old(img).pixels(),
        palette@.len() > 0 ==> final(img).pixels() == diffuse_spec(
            old(img).pixels(),
            old(img).width as int,
            old(img).height as int,
            palette@,
            crate::kernel::stucki_taps(),
            true,
            42,
        ),
{
    let k = stucki_kernel();
    apply_diffusion(img, palette, &k);
}

/// Burkes error diffusion over the grid: exactly the `diffuse_spec`
/// recurrence under the Burkes tap table.
pub fn apply_burkes(img: &mut PixelGrid, palette: &Vec<[u8; 3]>)
    requires
        old(img).wf(),
        old(img).width < 100000000,
        old(img).height < 100000000,
    ensures
        final(img).wf(),
        final(img).width == old(img).width,
        final(img).height == old(img).height,
        palette@.len() == 0 ==> final(img).pixels() == old(img).pixels(),
        palette@.len() > 0 ==> final(img).pixels() == diffuse_spec(
            old(img).pixels(),
            old(img).width as int,
            old(img).height as int,
            palette@,
            crate::kernel::burkes_taps(),
            true,
            32,
        ),
{
    let k = burkes_kernel();
    apply_diffusion(img, palette, &k);
}

/// three-row Sierra error diffusion over the grid: exactly the `diffuse_spec`
/// recurrence under the three-row Sierra tap table.
pub fn apply_sierra(img: &mut PixelGrid, palette: &Vec<[u8; 3]>)
    requires
        old(img).wf(),
        old(img).width < 100000000,
        old(img).height < 100000000,
    ensures
        final(img).wf(),
        final(img).width == old(img).width,
        final(img).height == old(img).height,
        palette@.len() == 0 ==> final(img).pixels() == old(img).pixels(),
        palette@.len() > 0 ==> final(img).pixels() == diffuse_spec(
            old(img).pixels(),
            old(img).width as int,
            old(img).height as int,
            palette@,
            crate::kernel::sierra_taps(),
            true,
            32,
        ),
{
    let k = sierra_kernel();
    apply_diffusion(img, palette, &k);
}

/// two-row Sierra error diffusion over the grid: exactly the `diffuse_spec`
/// recurrence under the two-row Sierra tap table.
pub fn apply_two_row_sierra(img: &mut PixelGrid, palette: &Vec<[u8; 3]>)
    requires
        old(img).wf(),
        old(img).width < 100000000,
        old(img).height < 100000000,
    ensures
        final(img).wf(),
        final(img).width == old(img).width,
        final(img).height == old(img).height,
        palette@.len() == 0 ==> final(img).pixels() == old(img).pixels(),
        palette@.len() > 0 ==> final(img).pixels() == diffuse_spec(
            old(img).pixels(),
            old(img).width as int,
            old(img).height as int,
            palette@,
            crate::kernel::two_row_sierra_taps(),
            true,
            16,
        ),
{
    let k = two_row_sierra_kernel();
    apply_diffusion(img, palette, &k);
}

/// Sierra Lite error diffusion over the grid: exactly the `diffuse_spec`
/// recurrence under the Sierra Lite tap table.
pub fn apply_sierra_lite(img: &mut PixelGrid, palette: &Vec<[u8; 3]>)
    requires
        old(img).wf(),
        old(img).width < 100000000,
        old(img).height < 100000000,
    ensures
        final(img).wf(),
        final(img).width == old(img).width,
        final(img).height == old(img).height,
        palette@.len() == 0 ==> final(img).pixels() == old(img).pixels(),
        palette@.len() > 0 ==> final(img).pixels() == diffuse_spec(
            old(img).pixels(),
            old(img).width as int,
            old(img).height as int,
            palette@,
            crate::kernel::sierra_lite_taps(),
            true,
            4,
        ),
{
    let k = sierra_lite_kernel();
    apply_diffusion(img, palette, &k);
}

/// Jarvis-Judice-Ninke error diffusion over the grid: exactly the `diffuse_spec`
/// recurrence under the Jarvis-Judice-Ninke tap table.
pub fn apply_jarvis_judice_ninke(img: &mut PixelGrid, palette: &Vec<[u8; 3]>)
    requires
        old(img).wf(),
        old(img).width < 100000000,
        old(img).height < 100000000,
    ensures
        final(img).wf(),
        final(img).width == old(img).width,
        final(img).height == old(img).height,
        palette@.len() == 0 ==> final(img).pixels() == old(img).pixels(),
        palette@.len() > 0 ==> final(img).pixels() == diffuse_spec(
            old(img).pixels(),
            old(img).width as int,
            old(img).height as int,
            palette@,
            crate::kernel::jarvis_judice_ninke_taps(),
            true,
            48,
        ),
{
    let k = jarvis_judice_ninke_kernel();
    apply_diffusion(img, palette, &k);
}


/// The Floyd-Steinberg algorithm as a unit type, for callers that keep a
/// per-algorithm value around.
pub struct FloydSteinberg;

impl FloydSteinberg {
    /// Run Floyd-Steinberg error diffusion over the grid.
    pub fn process(&self, img: &mut PixelGrid, palette: &Vec<[u8; 3]>)
        requires
            old(img).wf(),
            old(img).width < 100000000,
            old(img).height < 100000000,
        ensures
            final(img).wf(),
            final(img).width == old(img).width,
            final(img).height == old(img).height,
            palette@.len() == 0 ==> final(img).pixels() == old(img).pixels(),
            palette@.len() > 0 ==> final(img).pixels() == diffuse_spec(
                old(img).pixels(),
                old(img).width as int,
                old(img).height as int,
                palette@,
                crate::kernel::floyd_steinberg_taps(),
                false,
                16,
            ),
    {
        apply_floyd_steinberg(img, palette);
    }
}

/// Error distribution never touches the alpha channel or the buffer
/// length.
pub proof fn lemma_distribute_alpha(
    work: Seq<Rgba>,
    w: int,
    h: int,
    x: int,
    y: int,
    er: int,
    eg: int,
    eb: int,
    taps: Seq<KernelTap>,
    serp: bool,
    den: int,
    t: int,
)
    requires
        work.len() == w * h,
    ensures
        distribute_upto(work, w, h, x, y, er, eg, eb, taps, serp, den, t).len() == work.len(),
        forall|k: int|
            0 <= k < work.len() ==> distribute_upto(
                work,
                w,
                h,
                x,
                y,
                er,
                eg,
                eb,
                taps,
                serp,
                den,
                t,
            )[k].a == work[k].a,
    decreases t,
{
    if t > 0 {
        lemma_distribute_alpha(work, w, h, x, y, er, eg, eb, taps, serp, den, t - 1);
        let tap = taps[t - 1];
        let nx = x + eff_dx(serp, y, tap.dx as int);
        let ny = y + tap.dy;
        if 0 <= nx < w && 0 <= ny < h {
            assert(ny * w + nx < h * w && 0 <= ny * w + nx && h * w == w * h)
                by (nonlinear_arith)
                requires
                    0 <= nx < w,
                    0 <= ny < h,
            ;
        }
    }
}

/// A diffusion pass preserves every pixel's alpha channel and the buffer
/// length, in both the working snapshot and the output.
pub proof fn lemma_diffuse_alpha(
    img0: Seq<Rgba>,
    w: int,
    h: int,
    pal: Seq<[u8; 3]>,
    taps: Seq<KernelTap>,
    serp: bool,
    den: int,
    n: int,
)
    requires
        0 <= w,
        0 <= h,
        img0.len() == w * h,
        0 <= n <= w * h,
    ensures
        diffuse_upto(img0, w, h, pal, taps, serp, den, n).0.len() == img0.len(),
        diffuse_upto(img0, w, h, pal, taps, serp, den, n).1.len() == img0.len(),
        forall|k: int|
            0 <= k < img0.len() ==> diffuse_upto(img0, w, h, pal, taps, serp, den, n).0[k].a
                == img0[k].a,
        forall|k: int|
            0 <= k < img0.len() ==> diffuse_upto(img0, w, h, pal, taps, serp, den, n).1[k].a
                == img0[k].a,
    decreases n,
{
    if n > 0 {
        lemma_diffuse_alpha(img0, w, h, pal, taps, serp, den, n - 1);
        let prev = diffuse_upto(img0, w, h, pal, taps, serp, den, n - 1);
        assert(w > 0) by (nonlinear_arith)
            requires
                0 < n <= w * h,
                0 <= w,
                0 <= h,
        ;
        let y = (n - 1) / w;
        let x = scan_x(serp, w, y, (n - 1) % w);
        vstd::arithmetic::div_mod::lemma_multiply_divide_lt(n - 1, w, h);
        assert(w * h == h * w) by (nonlinear_arith);
        vstd::arithmetic::div_mod::lemma_mod_bound(n - 1, w);
        assert(0 <= y * w + x < w * h && prev.0.len() == w * h) by (nonlinear_arith)
            requires
                0 <= y < h,
                0 <= x < w,
                prev.0.len() == w * h,
        ;
        let src = prev.0[y * w + x];
        lemma_distribute_alpha(
            prev.0,
            w,
            h,
            x,
            y,
            src.r - pal[nearest_idx(
                Metric::Ciede2000,
                lab_of_rgb(src.r as int, src.g as int, src.b as int),
                pal,
            )]@[0],
            src.g - pal[nearest_idx(
                Metric::Ciede2000,
                lab_of_rgb(src.r as int, src.g as int, src.b as int),
                pal,
            )]@[1],
            src.b - pal[nearest_idx(
                Metric::Ciede2000,
                lab_of_rgb(src.r as int, src.g as int, src.b as int),
                pal,
            )]@[2],
            taps,
            serp,
            den,
            taps.len() as int,
        );
    }
}


/// The pixel holds exactly this palette entry's channels.
pub open spec fn pixel_matches(p: Rgba, c: [u8; 3]) -> bool {
    p.r == c@[0] && p.g == c@[1] && p.b == c@[2]
}

/// Every pixel of the buffer equals some palette entry exactly.
pub open spec fn all_pixels_in_palette(img0: Seq<Rgba>, pal: Seq<[u8; 3]>) -> bool {
    forall|k: int|
        0 <= k < img0.len() ==> exists|j: int|
            0 <= j < pal.len() && pixel_matches(#[trigger] img0[k], pal[j])
}

/// No two distinct palette entries sit at CIEDE2000 distance zero.
pub open spec fn palette_metric_distinct(pal: Seq<[u8; 3]>) -> bool {
    forall|j: int, k: int|
        0 <= j < pal.len() && 0 <= k < pal.len() && j != k ==> crate::matcher::pal_dist(
            Metric::Ciede2000,
            crate::matcher::rgb_lab(#[trigger] pal[j]),
            #[trigger] pal[k],
        ) != 0
}

/// Distributing a zero error changes nothing.
proof fn lemma_distribute_zero(
    work: Seq<Rgba>,
    w: int,
    h: int,
    x: int,
    y: int,
    taps: Seq<KernelTap>,
    serp: bool,
    den: int,
    t: int,
)
    requires
        work.len() == w * h,
        den > 0,
    ensures
        distribute_upto(work, w, h, x, y, 0, 0, 0, taps, serp, den, t) == work,
    decreases t,
{
    if t > 0 {
        lemma_distribute_zero(work, w, h, x, y, taps, serp, den, t - 1);
        let tap = taps[t - 1];
        let nx = x + eff_dx(serp, y, tap.dx as int);
        let ny = y + tap.dy;
        if 0 <= nx < w && 0 <= ny < h {
            assert(ny * w + nx < h * w && 0 <= ny * w + nx && h * w == w * h)
                by (nonlinear_arith)
                requires
                    0 <= nx < w,
                    0 <= ny < h,
            ;
            let i = ny * w + nx;
            let q = work[i];
            assert(0 * (tap.num as int) == 0) by (nonlinear_arith);
            vstd::arithmetic::div_mod::lemma_div_of0(den);
            assert(add_err_spec(q.r as int, 0, tap.num as int, den) == q.r);
            assert(add_err_spec(q.g as int, 0, tap.num as int, den) == q.g);
            assert(add_err_spec(q.b as int, 0, tap.num as int, den) == q.b);
            assert(work.update(
                i,
                Rgba {
                    r: add_err_spec(q.r as int, 0, tap.num as int, den) as u8,
                    g: add_err_spec(q.g as int, 0, tap.num as int, den) as u8,
                    b: add_err_spec(q.b as int, 0, tap.num as int, den) as u8,
                    a: q.a,
                },
            ) =~= work);
        }
    }
}

proof fn lemma_diffuse_identity(
    img0: Seq<Rgba>,
    w: int,
    h: int,
    pal: Seq<[u8; 3]>,
    taps: Seq<KernelTap>,
    serp: bool,
    den: int,
    n: int,
)
    requires
        0 <= w,
        0 <= h,
        img0.len() == w * h,
        0 <= n <= w * h,
        den > 0,
        pal.len() > 0,
        all_pixels_in_palette(img0, pal),
        palette_metric_distinct(pal),
    ensures
        diffuse_upto(img0, w, h, pal, taps, serp, den, n) == (img0, img0),
    decreases n,
{
    if n > 0 {
        lemma_diffuse_identity(img0, w, h, pal, taps, serp, den, n - 1);
        assert(w > 0) by (nonlinear_arith)
            requires
                0 < n <= w * h,
                0 <= w,
                0 <= h,
        ;
        let y = (n - 1) / w;
        let x = scan_x(serp, w, y, (n - 1) % w);
        vstd::arithmetic::div_mod::lemma_multiply_divide_lt(n - 1, w, h);
        assert(w * h == h * w) by (nonlinear_arith);
        vstd::arithmetic::div_mod::lemma_mod_bound(n - 1, w);
        let i = y * w + x;
        assert(0 <= i < w * h) by (nonlinear_arith)
            requires
                0 <= y < h,
                0 <= x < w,
                i == y * w + x,
        ;
        let src = img0[i];
        let j = choose|j: int| 0 <= j < pal.len() && pixel_matches(img0[i], pal[j]);
        let srclab = lab_of_rgb(src.r as int, src.g as int, src.b as int);
        assert(srclab == crate::matcher::rgb_lab(pal[j]));
        let ci = nearest_idx(Metric::Ciede2000, srclab, pal);
        crate::matcher::lemma_nearest_minimizes(Metric::Ciede2000, srclab, pal);
        crate::color::lemma_ciede2000_reflexive(crate::matcher::rgb_lab(pal[j]));
        assert(crate::matcher::pal_dist(Metric::Ciede2000, srclab, pal[j]) == 0);
        crate::color::lemma_ciede2000_nonneg(srclab, crate::matcher::rgb_lab(pal[ci]));
        assert(crate::matcher::pal_dist(Metric::Ciede2000, srclab, pal[ci]) == 0);
        assert(ci == j);
        let ch = pal[ci];
        assert(Rgba { r: ch@[0], g: ch@[1], b: ch@[2], a: src.a } == src);
        assert(img0.update(i, Rgba { r: ch@[0], g: ch@[1], b: ch@[2], a: src.a }) =~= img0);
        lemma_distribute_zero(img0, w, h, x, y, taps, serp, den, taps.len() as int);
        assert(src.r - ch@[0] == 0 && src.g - ch@[1] == 0 && src.b - ch@[2] == 0);
    }
}

/// Law: when every source pixel already equals some palette entry exactly
/// and no two palette entries sit at CIEDE2000 distance zero from one
/// another, an error-diffusion pass reproduces the input exactly: every
/// step propagates zero error.
pub proof fn lemma_diffusion_round_trip(
    img0: Seq<Rgba>,
    w: int,
    h: int,
    pal: Seq<[u8; 3]>,
    taps: Seq<KernelTap>,
    serp: bool,
    den: int,
)
    requires
        0 <= w,
        0 <= h,
        img0.len() == w * h,
        den > 0,
        pal.len() > 0,
        all_pixels_in_palette(img0, pal),
        palette_metric_distinct(pal),
    ensures
        diffuse_spec(img0, w, h, pal, taps, serp, den) == img0,
{
    lemma_diffuse_identity(img0, w, h, pal, taps, serp, den, w * h);
}

} // verus!
