//! The ordered (Bayer-family) engines: fixed threshold matrices at sizes
//! 2, 4 and 8, the brightness-gated two-color decision rule, and the
//! dual-color-by-brightness pass. Each output pixel depends only on the
//! corresponding input pixel, the palette, and the fixed matrix, so these
//! passes carry no cross-pixel state.
use vstd::prelude::*;

use crate::color::brightness;
use crate::color::brightness_spec;
use crate::color::lab_of_rgb;
use crate::grid::PixelGrid;
use crate::grid::Rgba;
use crate::matcher::nearest_idx;
use crate::matcher::second_idx;
use crate::matcher::two_closest;
use crate::matcher::Metric;
use crate::trig::abs1;

verus! {

/// One cell of the 2x2 threshold matrix (row `yy`, column `xx`).
pub open spec fn bayer2_entry(xx: int, yy: int) -> int {
    if yy == 0 { if xx == 0 { 0 } else { 2 } } else { if xx == 0 { 3 } else { 1 } }
}

/// The matrix cell a pixel at (x, y) reads: the matrix tiles the plane
/// with period 2 in both directions.
pub open spec fn bayer2_cell(x: int, y: int) -> int {
    bayer2_entry(x % 2, y % 2)
}

/// Exec cell lookup; exact mirror of `bayer2_cell`.
pub fn bayer2_cell_exec(x: usize, y: usize) -> (v: u8)
    ensures
        v as int == bayer2_cell(x as int, y as int),
        v < 4,
{
    let xx = x % 2;
    let yy = y % 2;
    if yy == 0 { if xx == 0 { 0 } else { 2 } } else { if xx == 0 { 3 } else { 1 } }
}

/// One cell of the 4x4 threshold matrix (row `yy`, column `xx`).
pub open spec fn bayer4_entry(xx: int, yy: int) -> int {
    if yy == 0 { if xx == 0 { 0 } else if xx == 1 { 8 } else if xx == 2 { 2 } else { 10 } } else if yy == 1 { if xx == 0 { 12 } else if xx == 1 { 4 } else if xx == 2 { 14 } else { 6 } } else if yy == 2 { if xx == 0 { 3 } else if xx == 1 { 11 } else if xx == 2 { 1 } else { 9 } } else { if xx == 0 { 15 } else if xx == 1 { 7 } else if xx == 2 { 13 } else { 5 } }
}

/// The matrix cell a pixel at (x, y) reads: the matrix tiles the plane
/// with period 4 in both directions.
pub open spec fn bayer4_cell(x: int, y: int) -> int {
    bayer4_entry(x % 4, y % 4)
}

/// Exec cell lookup; exact mirror of `bayer4_cell`.
pub fn bayer4_cell_exec(x: usize, y: usize) -> (v: u8)
    ensures
        v as int == bayer4_cell(x as int, y as int),
        v < 16,
{
    let xx = x % 4;
    let yy = y % 4;
    if yy == 0 { if xx == 0 { 0 } else if xx == 1 { 8 } else if xx == 2 { 2 } else { 10 } } else if yy == 1 { if xx == 0 { 12 } else if xx == 1 { 4 } else if xx == 2 { 14 } else { 6 } } else if yy == 2 { if xx == 0 { 3 } else if xx == 1 { 11 } else if xx == 2 { 1 } else { 9 } } else { if xx == 0 { 15 } else if xx == 1 { 7 } else if xx == 2 { 13 } else { 5 } }
}

/// One cell of the 8x8 threshold matrix (row `yy`, column `xx`).
pub open spec fn bayer8_entry(xx: int, yy: int) -> int {
    if yy == 0 { if xx == 0 { 0 } else if xx == 1 { 48 } else if xx == 2 { 12 } else if xx == 3 { 60 } else if xx == 4 { 3 } else if xx == 5 { 51 } else if xx == 6 { 15 } else { 63 } } else if yy == 1 { if xx == 0 { 32 } else if xx == 1 { 16 } else if xx == 2 { 44 } else if xx == 3 { 28 } else if xx == 4 { 35 } else if xx == 5 { 19 } else if xx == 6 { 47 } else { 31 } } else if yy == 2 { if xx == 0 { 8 } else if xx == 1 { 56 } else if xx == 2 { 4 } else if xx == 3 { 52 } else if xx == 4 { 11 } else if xx == 5 { 59 } else if xx == 6 { 7 } else { 55 } } else if yy == 3 { if xx == 0 { 40 } else if xx == 1 { 24 } else if xx == 2 { 36 } else if xx == 3 { 20 } else if xx == 4 { 43 } else if xx == 5 { 27 } else if xx == 6 { 39 } else { 23 } } else if yy == 4 { if xx == 0 { 2 } else if xx == 1 { 50 } else if xx == 2 { 14 } else if xx == 3 { 62 } else if xx == 4 { 1 } else if xx == 5 { 49 } else if xx == 6 { 13 } else { 61 } } else if yy == 5 { if xx == 0 { 34 } else if xx == 1 { 18 } else if xx == 2 { 46 } else if xx == 3 { 30 } else if xx == 4 { 33 } else if xx == 5 { 17 } else if xx == 6 { 45 } else { 29 } } else if yy == 6 { if xx == 0 { 10 } else if xx == 1 { 58 } else if xx == 2 { 6 } else if xx == 3 { 54 } else if xx == 4 { 9 } else if xx == 5 { 57 } else if xx == 6 { 5 } else { 53 } } else { if xx == 0 { 42 } else if xx == 1 { 26 } else if xx == 2 { 38 } else if xx == 3 { 22 } else if xx == 4 { 41 } else if xx == 5 { 25 } else if xx == 6 { 37 } else { 21 } }
}

/// The matrix cell a pixel at (x, y) reads: the matrix tiles the plane
/// with period 8 in both directions.
pub open spec fn bayer8_cell(x: int, y: int) -> int {
    bayer8_entry(x % 8, y % 8)
}

/// Exec cell lookup; exact mirror of `bayer8_cell`.
pub fn bayer8_cell_exec(x: usize, y: usize) -> (v: u8)
    ensures
        v as int == bayer8_cell(x as int, y as int),
        v < 64,
{
    let xx = x % 8;
    let yy = y % 8;
    if yy == 0 { if xx == 0 { 0 } else if xx == 1 { 48 } else if xx == 2 { 12 } else if xx == 3 { 60 } else if xx == 4 { 3 } else if xx == 5 { 51 } else if xx == 6 { 15 } else { 63 } } else if yy == 1 { if xx == 0 { 32 } else if xx == 1 { 16 } else if xx == 2 { 44 } else if xx == 3 { 28 } else if xx == 4 { 35 } else if xx == 5 { 19 } else if xx == 6 { 47 } else { 31 } } else if yy == 2 { if xx == 0 { 8 } else if xx == 1 { 56 } else if xx == 2 { 4 } else if xx == 3 { 52 } else if xx == 4 { 11 } else if xx == 5 { 59 } else if xx == 6 { 7 } else { 55 } } else if yy == 3 { if xx == 0 { 40 } else if xx == 1 { 24 } else if xx == 2 { 36 } else if xx == 3 { 20 } else if xx == 4 { 43 } else if xx == 5 { 27 } else if xx == 6 { 39 } else { 23 } } else if yy == 4 { if xx == 0 { 2 } else if xx == 1 { 50 } else if xx == 2 { 14 } else if xx == 3 { 62 } else if xx == 4 { 1 } else if xx == 5 { 49 } else if xx == 6 { 13 } else { 61 } } else if yy == 5 { if xx == 0 { 34 } else if xx == 1 { 18 } else if xx == 2 { 46 } else if xx == 3 { 30 } else if xx == 4 { 33 } else if xx == 5 { 17 } else if xx == 6 { 45 } else { 29 } } else if yy == 6 { if xx == 0 { 10 } else if xx == 1 { 58 } else if xx == 2 { 6 } else if xx == 3 { 54 } else if xx == 4 { 9 } else if xx == 5 { 57 } else if xx == 6 { 5 } else { 53 } } else { if xx == 0 { 42 } else if xx == 1 { 26 } else if xx == 2 { 38 } else if xx == 3 { 22 } else if xx == 4 { 41 } else if xx == 5 { 25 } else if xx == 6 { 37 } else { 21 } }
}


/// One cell of the independent 8x8 ordered-selective permutation matrix
/// (row `yy`, column `xx`).
pub open spec fn ordered8_entry(xx: int, yy: int) -> int {
    if yy == 0 { if xx == 0 { 0 } else if xx == 1 { 32 } else if xx == 2 { 8 } else if xx == 3 { 40 } else if xx == 4 { 2 } else if xx == 5 { 34 } else if xx == 6 { 10 } else { 42 } } else if yy == 1 { if xx == 0 { 48 } else if xx == 1 { 16 } else if xx == 2 { 56 } else if xx == 3 { 24 } else if xx == 4 { 50 } else if xx == 5 { 18 } else if xx == 6 { 58 } else { 26 } } else if yy == 2 { if xx == 0 { 12 } else if xx == 1 { 44 } else if xx == 2 { 4 } else if xx == 3 { 36 } else if xx == 4 { 14 } else if xx == 5 { 46 } else if xx == 6 { 6 } else { 38 } } else if yy == 3 { if xx == 0 { 60 } else if xx == 1 { 28 } else if xx == 2 { 52 } else if xx == 3 { 20 } else if xx == 4 { 62 } else if xx == 5 { 30 } else if xx == 6 { 54 } else { 22 } } else if yy == 4 { if xx == 0 { 3 } else if xx == 1 { 35 } else if xx == 2 { 11 } else if xx == 3 { 43 } else if xx == 4 { 1 } else if xx == 5 { 33 } else if xx == 6 { 9 } else { 41 } } else if yy == 5 { if xx == 0 { 51 } else if xx == 1 { 19 } else if xx == 2 { 59 } else if xx == 3 { 27 } else if xx == 4 { 49 } else if xx == 5 { 17 } else if xx == 6 { 57 } else { 25 } } else if yy == 6 { if xx == 0 { 15 } else if xx == 1 { 47 } else if xx == 2 { 7 } else if xx == 3 { 39 } else if xx == 4 { 13 } else if xx == 5 { 45 } else if xx == 6 { 5 } else { 37 } } else { if xx == 0 { 63 } else if xx == 1 { 31 } else if xx == 2 { 55 } else if xx == 3 { 23 } else if xx == 4 { 61 } else if xx == 5 { 29 } else if xx == 6 { 53 } else { 21 } }
}

/// The ordered-selective matrix cell a pixel at (x, y) reads; it tiles
/// the plane with period 8 in both directions.
pub open spec fn ordered8_cell(x: int, y: int) -> int {
    ordered8_entry(x % 8, y % 8)
}

/// Exec cell lookup; exact mirror of `ordered8_cell`.
pub fn ordered8_cell_exec(x: usize, y: usize) -> (v: u8)
    ensures
        v as int == ordered8_cell(x as int, y as int),
        v < 64,
{
    let xx = x % 8;
    let yy = y % 8;
    if yy == 0 { if xx == 0 { 0 } else if xx == 1 { 32 } else if xx == 2 { 8 } else if xx == 3 { 40 } else if xx == 4 { 2 } else if xx == 5 { 34 } else if xx == 6 { 10 } else { 42 } } else if yy == 1 { if xx == 0 { 48 } else if xx == 1 { 16 } else if xx == 2 { 56 } else if xx == 3 { 24 } else if xx == 4 { 50 } else if xx == 5 { 18 } else if xx == 6 { 58 } else { 26 } } else if yy == 2 { if xx == 0 { 12 } else if xx == 1 { 44 } else if xx == 2 { 4 } else if xx == 3 { 36 } else if xx == 4 { 14 } else if xx == 5 { 46 } else if xx == 6 { 6 } else { 38 } } else if yy == 3 { if xx == 0 { 60 } else if xx == 1 { 28 } else if xx == 2 { 52 } else if xx == 3 { 20 } else if xx == 4 { 62 } else if xx == 5 { 30 } else if xx == 6 { 54 } else { 22 } } else if yy == 4 { if xx == 0 { 3 } else if xx == 1 { 35 } else if xx == 2 { 11 } else if xx == 3 { 43 } else if xx == 4 { 1 } else if xx == 5 { 33 } else if xx == 6 { 9 } else { 41 } } else if yy == 5 { if xx == 0 { 51 } else if xx == 1 { 19 } else if xx == 2 { 59 } else if xx == 3 { 27 } else if xx == 4 { 49 } else if xx == 5 { 17 } else if xx == 6 { 57 } else { 25 } } else if yy == 6 { if xx == 0 { 15 } else if xx == 1 { 47 } else if xx == 2 { 7 } else if xx == 3 { 39 } else if xx == 4 { 13 } else if xx == 5 { 45 } else if xx == 6 { 5 } else { 37 } } else { if xx == 0 { 63 } else if xx == 1 { 31 } else if xx == 2 { 55 } else if xx == 3 { 23 } else if xx == 4 { 61 } else if xx == 5 { 29 } else if xx == 6 { 53 } else { 21 } }
}

/// Law: the Bayer matrices tile with their own period in both axes; in
/// particular pixel (x, y) and pixels (x + 4, y) and (x, y + 4) read the
/// same 4x4 cell.
pub proof fn lemma_bayer_tiles(x: int, y: int)
    ensures
        bayer4_cell(x + 4, y) == bayer4_cell(x, y),
        bayer4_cell(x, y + 4) == bayer4_cell(x, y),
        bayer2_cell(x + 2, y) == bayer2_cell(x, y),
        bayer2_cell(x, y + 2) == bayer2_cell(x, y),
        bayer8_cell(x + 8, y) == bayer8_cell(x, y),
        bayer8_cell(x, y + 8) == bayer8_cell(x, y),
{
    vstd::arithmetic::div_mod::lemma_mod_multiples_vanish(1, x, 4);
    vstd::arithmetic::div_mod::lemma_mod_multiples_vanish(1, y, 4);
    vstd::arithmetic::div_mod::lemma_mod_multiples_vanish(1, x, 2);
    vstd::arithmetic::div_mod::lemma_mod_multiples_vanish(1, y, 2);
    vstd::arithmetic::div_mod::lemma_mod_multiples_vanish(1, x, 8);
    vstd::arithmetic::div_mod::lemma_mod_multiples_vanish(1, y, 8);
}

/// The size of the threshold matrix a Bayer pass runs under.
#[derive(Clone, Copy, PartialEq, Eq, Structural, Debug)]
pub enum BayerSize {
    Two,
    Four,
    Eight,
}

impl BayerSize {
    /// The matrix dimension.
    pub open spec fn dim(self) -> int {
        match self {
            BayerSize::Two => 2,
            BayerSize::Four => 4,
            BayerSize::Eight => 8,
        }
    }

    /// The matrix cell read at (x, y).
    pub open spec fn cell(self, x: int, y: int) -> int {
        match self {
            BayerSize::Two => bayer2_cell(x, y),
            BayerSize::Four => bayer4_cell(x, y),
            BayerSize::Eight => bayer8_cell(x, y),
        }
    }
}

/// The second-nearest palette color under a metric, degenerating to the
/// nearest entry on a single-entry palette.
pub open spec fn second_color(m: Metric, pal: Seq<[u8; 3]>, src: crate::color::Lab) -> [u8; 3] {
    let i1 = nearest_idx(m, src, pal);
    if pal.len() == 1 {
        pal[i1]
    } else {
        pal[second_idx(m, src, pal, i1)]
    }
}

/// The Bayer decision for one pixel: brightness-gated choice between the
/// two nearest palette colors under Euclidean Lab distance. The
/// second-nearest color is taken exactly when the normalized matrix cell
/// lies below the brightness gap to the nearest color and the gap to the
/// second color is below 1.5 times that gap (compared exactly over the
/// common denominators); alpha is kept.
pub open spec fn bayer_pixel(size: BayerSize, pal: Seq<[u8; 3]>, p: Rgba, x: int, y: int) -> Rgba {
    if pal.len() == 0 {
        p
    } else {
        let src = lab_of_rgb(p.r as int, p.g as int, p.b as int);
        let c1 = pal[nearest_idx(Metric::Euclid, src, pal)];
        let c2 = second_color(Metric::Euclid, pal, src);
        let br = brightness_spec(p.r as int, p.g as int, p.b as int);
        let br1 = brightness_spec(c1@[0] as int, c1@[1] as int, c1@[2] as int);
        let br2 = brightness_spec(c2@[0] as int, c2@[1] as int, c2@[2] as int);
        let diff1 = abs1(br - br1);
        let diff2 = abs1(br - br2);
        let nn = size.dim() * size.dim();
        let ch = if size.cell(x, y) * 255000 < diff1 * nn && 2 * diff2 < 3 * diff1 {
            c2
        } else {
            c1
        };
        Rgba { r: ch@[0], g: ch@[1], b: ch@[2], a: p.a }
    }
}

/// Exec matrix cell dispatch.
fn bayer_cell_exec(size: BayerSize, x: usize, y: usize) -> (v: u8)
    ensures
        v as int == size.cell(x as int, y as int),
        (v as int) < size.dim() * size.dim(),
{
    match size {
        BayerSize::Two => bayer2_cell_exec(x, y),
        BayerSize::Four => bayer4_cell_exec(x, y),
        BayerSize::Eight => bayer8_cell_exec(x, y),
    }
}

/// Run a Bayer matrix pass over the grid in place: every pixel becomes
/// exactly `bayer_pixel` of its original value and position. An empty
/// palette leaves the buffer untouched.
pub fn process_bayer(img: &mut PixelGrid, palette: &Vec<[u8; 3]>, size: BayerSize)
    requires
        old(img).wf(),
    ensures
        final(img).wf(),
        final(img).width == old(img).width,
        final(img).height == old(img).height,
        final(img).pixels().len() == old(img).pixels().len(),
        palette@.len() == 0 ==> final(img).pixels() == old(img).pixels(),
        palette@.len() > 0 ==> forall|k: int|
            0 <= k < old(img).pixels().len() ==> final(img).pixels()[k] == bayer_pixel(
                size,
                palette@,
                old(img).pixels()[k],
                k % (old(img).width as int),
                k / (old(img).width as int),
            ),
{
    if palette.len() == 0 {
        return ;
    }
    let ghost img0 = img.pixels();
    let w = img.width;
    let total = img.data.len();
    let mut n: usize = 0;
    while n < total
        invariant
            n <= total,
            total == img0.len(),
            img.pixels().len() == img0.len(),
            img.width == w,
            img.height == old(img).height,
            img.wf(),
            total == w * img.height,
            palette@.len() > 0,
            forall|k: int|
                0 <= k < n ==> img.pixels()[k] == bayer_pixel(
                    size,
                    palette@,
                    img0[k],
                    k % (w as int),
                    k / (w as int),
                ),
            forall|k: int| n <= k < total ==> img.pixels()[k] == img0[k],
        decreases total - n,
    {
        proof {
            if w == 0 {
                assert(w * img.height == 0) by (nonlinear_arith)
                    requires
                        w == 0,
                ;
            }
        }
        let x = n % w;
        let y = n / w;
        let p = img.get_flat(n);
        let (c1, c2) = two_closest(p.r, p.g, p.b, palette, Metric::Euclid);
        let br = brightness(p.r, p.g, p.b) as i64;
        let br1 = brightness(c1[0], c1[1], c1[2]) as i64;
        let br2 = brightness(c2[0], c2[1], c2[2]) as i64;
        let diff1 = if br >= br1 {
            br - br1
        } else {
            br1 - br
        };
        let diff2 = if br >= br2 {
            br - br2
        } else {
            br2 - br
        };
        let cell = bayer_cell_exec(size, x, y) as i64;
        let nn: i64 = match size {
            BayerSize::Two => 4,
            BayerSize::Four => 16,
            BayerSize::Eight => 64,
        };
        let ch = if cell * 255000 < diff1 * nn && 2 * diff2 < 3 * diff1 {
            c2
        } else {
            c1
        };
        img.set_flat(n, Rgba { r: ch[0], g: ch[1], b: ch[2], a: p.a });
        n = n + 1;
    }
}

/// The 4x4 Bayer pass, the default ordered algorithm.
pub struct Bayer;

/// The 2x2 Bayer pass.
pub struct Bayer2;

/// The 8x8 Bayer pass.
pub struct Bayer8;

impl Bayer {
    /// Run the 4x4 matrix pass.
    pub fn process(&self, img: &mut PixelGrid, palette: &Vec<[u8; 3]>)
        requires
            old(img).wf(),
        ensures
            final(img).wf(),
            final(img).width == old(img).width,
            final(img).height == old(img).height,
            palette@.len() == 0 ==> final(img).pixels() == old(img).pixels(),
            palette@.len() > 0 ==> forall|k: int|
                0 <= k < old(img).pixels().len() ==> final(img).pixels()[k] == bayer_pixel(
                    BayerSize::Four,
                    palette@,
                    old(img).pixels()[k],
                    k % (old(img).width as int),
                    k / (old(img).width as int),
                ),
    {
        process_bayer(img, palette, BayerSize::Four);
    }
}

impl Bayer2 {
    /// Run the 2x2 matrix pass.
    pub fn process(&self, img: &mut PixelGrid, palette: &Vec<[u8; 3]>)
        requires
            old(img).wf(),
        ensures
            final(img).wf(),
            final(img).width == old(img).width,
            final(img).height == old(img).height,
            palette@.len() == 0 ==> final(img).pixels() == old(img).pixels(),
            palette@.len() > 0 ==> forall|k: int|
                0 <= k < old(img).pixels().len() ==> final(img).pixels()[k] == bayer_pixel(
                    BayerSize::Two,
                    palette@,
                    old(img).pixels()[k],
                    k % (old(img).width as int),
                    k / (old(img).width as int),
                ),
    {
        process_bayer(img, palette, BayerSize::Two);
    }
}

impl Bayer8 {
    /// Run the 8x8 matrix pass.
    pub fn process(&self, img: &mut PixelGrid, palette: &Vec<[u8; 3]>)
        requires
            old(img).wf(),
        ensures
            final(img).wf(),
            final(img).width == old(img).width,
            final(img).height == old(img).height,
            palette@.len() == 0 ==> final(img).pixels() == old(img).pixels(),
            palette@.len() > 0 ==> forall|k: int|
                0 <= k < old(img).pixels().len() ==> final(img).pixels()[k] == bayer_pixel(
                    BayerSize::Eight,
                    palette@,
                    old(img).pixels()[k],
                    k % (old(img).width as int),
                    k / (old(img).width as int),
                ),
    {
        process_bayer(img, palette, BayerSize::Eight);
    }
}

/// The dual-color decision: the nearest palette color (Euclidean Lab) for
/// bright pixels, the second-nearest otherwise; no threshold and no
/// propagation.
pub open spec fn dual_pixel(pal: Seq<[u8; 3]>, p: Rgba) -> Rgba {
    if pal.len() == 0 {
        p
    } else {
        let src = lab_of_rgb(p.r as int, p.g as int, p.b as int);
        let c1 = pal[nearest_idx(Metric::Euclid, src, pal)];
        let c2 = second_color(Metric::Euclid, pal, src);
        let br = brightness_spec(p.r as int, p.g as int, p.b as int);
        let ch = if 2 * br > 255000 {
            c1
        } else {
            c2
        };
        Rgba { r: ch@[0], g: ch@[1], b: ch@[2], a: p.a }
    }
}

/// Replace every pixel by `dual_pixel` of its original value. An empty
/// palette leaves the buffer untouched.
pub fn apply_dual_color(img: &mut PixelGrid, palette: &Vec<[u8; 3]>)
    requires
        old(img).wf(),
    ensures
        final(img).wf(),
        final(img).width == old(img).width,
        final(img).height == old(img).height,
        palette@.len() == 0 ==> final(img).pixels() == old(img).pixels(),
        palette@.len() > 0 ==> forall|k: int|
            0 <= k < old(img).pixels().len() ==> final(img).pixels()[k] == dual_pixel(
                palette@,
                old(img).pixels()[k],
            ),
{
    if palette.len() == 0 {
        return ;
    }
    let ghost img0 = img.pixels();
    let total = img.data.len();
    let mut n: usize = 0;
    while n < total
        invariant
            n <= total,
            total == img0.len(),
            img.pixels().len() == img0.len(),
            img.width == old(img).width,
            img.height == old(img).height,
            img.wf(),
            palette@.len() > 0,
            forall|k: int| 0 <= k < n ==> img.pixels()[k] == dual_pixel(palette@, img0[k]),
            forall|k: int| n <= k < total ==> img.pixels()[k] == img0[k],
        decreases total - n,
    {
        let p = img.get_flat(n);
        let (c1, c2) = two_closest(p.r, p.g, p.b, palette, Metric::Euclid);
        let br = brightness(p.r, p.g, p.b) as i64;
        let ch = if 2 * br > 255000 {
            c1
        } else {
            c2
        };
        img.set_flat(n, Rgba { r: ch[0], g: ch[1], b: ch[2], a: p.a });
        n = n + 1;
    }
}

} // verus!
