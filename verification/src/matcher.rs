//! Nearest- and two-nearest-color lookup against a palette. Matching is
//! deterministic: `nearest_idx` is the index of the first palette entry
//! attaining the minimal distance, and the exec scans return exactly that
//! entry, which makes palette order observable on ties.
use vstd::prelude::*;

use crate::color::ciede2000;
use crate::color::ciede2000_spec;
use crate::color::lab_distance;
use crate::color::lab_distance_spec;
use crate::color::lab_distance_weighted;
use crate::color::lab_distance_weighted_spec;
use crate::color::lab_of_rgb;
use crate::color::lab_valid;
use crate::color::rgb_to_lab;
use crate::color::Lab;

verus! {

/// The perceptual metric a matching pass runs under.
#[derive(Clone, Copy, PartialEq, Eq, Structural, Debug)]
pub enum Metric {
    /// Plain Euclidean distance in Lab.
    Euclid,
    /// Weighted Lab distance emphasizing chroma.
    Weighted,
    /// The full CIEDE2000 difference.
    Ciede2000,
}

/// The Lab value of a palette entry.
pub open spec fn rgb_lab(c: [u8; 3]) -> Lab {
    lab_of_rgb(c@[0] as int, c@[1] as int, c@[2] as int)
}

/// Distance between two Lab colors under the chosen metric.
pub open spec fn metric_dist(m: Metric, p: Lab, q: Lab) -> int {
    match m {
        Metric::Euclid => lab_distance_spec(p, q),
        Metric::Weighted => lab_distance_weighted_spec(p, q),
        Metric::Ciede2000 => ciede2000_spec(p, q),
    }
}

/// Distance from a source Lab value to a palette entry.
pub open spec fn pal_dist(m: Metric, src: Lab, c: [u8; 3]) -> int {
    metric_dist(m, src, rgb_lab(c))
}

/// The index of the first entry among the first `n` attaining the minimal
/// distance: a later entry replaces the running best only when strictly
/// closer.
pub open spec fn nearest_idx_upto(m: Metric, src: Lab, pal: Seq<[u8; 3]>, n: int) -> int
    decreases n,
{
    if n <= 1 {
        0
    } else {
        let p = nearest_idx_upto(m, src, pal, n - 1);
        if pal_dist(m, src, pal[n - 1]) < pal_dist(m, src, pal[p]) {
            n - 1
        } else {
            p
        }
    }
}

/// The index of the nearest palette entry (first wins ties).
pub open spec fn nearest_idx(m: Metric, src: Lab, pal: Seq<[u8; 3]>) -> int {
    nearest_idx_upto(m, src, pal, pal.len() as int)
}

/// `i` is a minimizer of the palette distance, and the first one.
pub open spec fn is_nearest(m: Metric, src: Lab, pal: Seq<[u8; 3]>, i: int) -> bool {
    &&& 0 <= i < pal.len()
    &&& forall|j: int|
        0 <= j < pal.len() ==> pal_dist(m, src, pal[i]) <= pal_dist(m, src, pal[j])
    &&& forall|j: int| 0 <= j < i ==> pal_dist(m, src, pal[j]) > pal_dist(m, src, pal[i])
}

/// Law: for every non-empty palette, `nearest_idx` names an entry whose
/// distance to the source is minimal over the whole palette, and any entry
/// before it is strictly farther, so exact ties go to the lower index.
pub proof fn lemma_nearest_minimizes(m: Metric, src: Lab, pal: Seq<[u8; 3]>)
    requires
        pal.len() > 0,
    ensures
        is_nearest(m, src, pal, nearest_idx(m, src, pal)),
{
    lemma_nearest_upto(m, src, pal, pal.len() as int);
}

proof fn lemma_nearest_upto(m: Metric, src: Lab, pal: Seq<[u8; 3]>, n: int)
    requires
        1 <= n <= pal.len(),
    ensures
        ({
            let i = nearest_idx_upto(m, src, pal, n);
            &&& 0 <= i < n
            &&& forall|j: int| 0 <= j < n ==> pal_dist(m, src, pal[i]) <= pal_dist(m, src, pal[j])
            &&& forall|j: int| 0 <= j < i ==> pal_dist(m, src, pal[j]) > pal_dist(m, src, pal[i])
        }),
    decreases n,
{
    if n > 1 {
        lemma_nearest_upto(m, src, pal, n - 1);
    }
}

/// Exec metric distance dispatch.
pub fn metric_distance(m: Metric, p: Lab, q: Lab) -> (d: i64)
    requires
        lab_valid(p),
        lab_valid(q),
    ensures
        d as int == metric_dist(m, p, q),
        0 <= d <= 9999999,
{
    match m {
        Metric::Euclid => lab_distance(p, q),
        Metric::Weighted => lab_distance_weighted(p, q),
        Metric::Ciede2000 => ciede2000(p, q),
    }
}

/// Convert a palette entry to Lab.
fn entry_lab(c: [u8; 3]) -> (lab: Lab)
    ensures
        lab == rgb_lab(c),
        lab_valid(lab),
{
    rgb_to_lab(c[0], c[1], c[2])
}

/// Nearest palette color to the source color under the metric: the first
/// entry attaining the minimal distance, or the source itself for an empty
/// palette.
pub fn nearest(r: u8, g: u8, b: u8, palette: &Vec<[u8; 3]>, metric: Metric) -> (c: [u8; 3])
    ensures
        palette@.len() == 0 ==> c@ =~= seq![r, g, b],
        palette@.len() > 0 ==> c == palette@[nearest_idx(
            metric,
            lab_of_rgb(r as int, g as int, b as int),
            palette@,
        )],
{
    if palette.len() == 0 {
        let c: [u8; 3] = [r, g, b];
        proof {
            assert(c@ =~= seq![r, g, b]);
        }
        return c;
    }
    let src = rgb_to_lab(r, g, b);
    let ghost gsrc = lab_of_rgb(r as int, g as int, b as int);
    let mut bi: usize = 0;
    let mut bd = metric_distance(metric, src, entry_lab(palette[0]));
    let mut j: usize = 1;
    while j < palette.len()
        invariant
            1 <= j <= palette@.len(),
            bi < j,
            lab_valid(src),
            src == gsrc,
            gsrc == lab_of_rgb(r as int, g as int, b as int),
            bd as int == pal_dist(metric, gsrc, palette@[bi as int]),
            bi as int == nearest_idx_upto(metric, gsrc, palette@, j as int),
        decreases palette@.len() - j,
    {
        let d = metric_distance(metric, src, entry_lab(palette[j]));
        if d < bd {
            bd = d;
            bi = j;
        }
        j = j + 1;
    }
    palette[bi]
}

/// The first entry among the first `n`, skipping `i1`, attaining the
/// minimal distance; a later entry replaces the running second only when
/// strictly closer.
pub open spec fn second_idx_upto(m: Metric, src: Lab, pal: Seq<[u8; 3]>, i1: int, n: int) -> int
    decreases n,
{
    if i1 == 0 && n <= 2 {
        1
    } else if i1 != 0 && n <= 1 {
        0
    } else {
        let p = second_idx_upto(m, src, pal, i1, n - 1);
        if n - 1 == i1 {
            p
        } else if pal_dist(m, src, pal[n - 1]) < pal_dist(m, src, pal[p]) {
            n - 1
        } else {
            p
        }
    }
}

/// The index of the second-nearest palette entry, given the nearest one.
pub open spec fn second_idx(m: Metric, src: Lab, pal: Seq<[u8; 3]>, i1: int) -> int {
    second_idx_upto(m, src, pal, i1, pal.len() as int)
}

/// Below the excluded index the skipping scan coincides with the plain
/// nearest scan.
proof fn lemma_second_eq_nearest_below(m: Metric, src: Lab, pal: Seq<[u8; 3]>, i1: int, n: int)
    requires
        1 <= n <= i1,
    ensures
        second_idx_upto(m, src, pal, i1, n) == nearest_idx_upto(m, src, pal, n),
    decreases n,
{
    if n > 1 {
        lemma_second_eq_nearest_below(m, src, pal, i1, n - 1);
    }
}

/// `i2` is the first entry attaining the minimal distance over all indices
/// other than `i1`.
pub open spec fn is_second(m: Metric, src: Lab, pal: Seq<[u8; 3]>, i1: int, i2: int) -> bool {
    &&& 0 <= i2 < pal.len()
    &&& i2 != i1
    &&& forall|j: int|
        0 <= j < pal.len() && j != i1 ==> pal_dist(m, src, pal[i2]) <= pal_dist(m, src, pal[j])
    &&& forall|j: int|
        0 <= j < i2 && j != i1 ==> pal_dist(m, src, pal[j]) > pal_dist(m, src, pal[i2])
}

/// Nearest and second-nearest palette colors with their distances, in one
/// pass with demotion. For an empty palette both results are the source
/// color at distance zero; for a single entry both are that entry.
pub fn two_closest_with_dist(r: u8, g: u8, b: u8, palette: &Vec<[u8; 3]>, metric: Metric) -> (res:
    ([u8; 3], i64, [u8; 3], i64))
    ensures
        palette@.len() == 0 ==> res.0@ =~= seq![r, g, b] && res.2@ =~= seq![r, g, b] && res.1 == 0
            && res.3 == 0,
        palette@.len() >= 1 ==> {
            let src = lab_of_rgb(r as int, g as int, b as int);
            let i1 = nearest_idx(metric, src, palette@);
            &&& res.0 == palette@[i1]
            &&& res.1 == pal_dist(metric, src, palette@[i1])
            &&& is_nearest(metric, src, palette@, i1)
        },
        palette@.len() == 1 ==> res.2 == res.0 && res.3 == res.1,
        palette@.len() >= 2 ==> {
            let src = lab_of_rgb(r as int, g as int, b as int);
            let i1 = nearest_idx(metric, src, palette@);
            let i2 = second_idx(metric, src, palette@, i1);
            &&& is_second(metric, src, palette@, i1, i2)
            &&& res.2 == palette@[i2]
            &&& res.3 == pal_dist(metric, src, palette@[i2])
        },
        0 <= res.1 <= 9999999,
        0 <= res.3 <= 9999999,
{
    if palette.len() == 0 {
        let c: [u8; 3] = [r, g, b];
        proof {
            assert(c@ =~= seq![r, g, b]);
        }
        return (c, 0, c, 0);
    }
    let src = rgb_to_lab(r, g, b);
    let ghost gsrc = lab_of_rgb(r as int, g as int, b as int);
    let d0 = metric_distance(metric, src, entry_lab(palette[0]));
    if palette.len() == 1 {
        proof {
            lemma_nearest_minimizes(metric, gsrc, palette@);
        }
        return (palette[0], d0, palette[0], d0);
    }
    let d1v = metric_distance(metric, src, entry_lab(palette[1]));
    let mut i1: usize;
    let mut bd1: i64;
    let mut i2: usize;
    let mut bd2: i64;
    if d1v < d0 {
        i1 = 1;
        bd1 = d1v;
        i2 = 0;
        bd2 = d0;
    } else {
        i1 = 0;
        bd1 = d0;
        i2 = 1;
        bd2 = d1v;
    }
    proof {
        assert(nearest_idx_upto(metric, gsrc, palette@, 1) == 0);
        if i1 == 1 {
            assert(second_idx_upto(metric, gsrc, palette@, 1, 1) == 0);
        }
    }
    let mut j: usize = 2;
    while j < palette.len()
        invariant
            2 <= j <= palette@.len(),
            i1 < j,
            i2 < j,
            i1 != i2,
            lab_valid(src),
            src == gsrc,
            gsrc == lab_of_rgb(r as int, g as int, b as int),
            bd1 as int == pal_dist(metric, gsrc, palette@[i1 as int]),
            bd2 as int == pal_dist(metric, gsrc, palette@[i2 as int]),
            0 <= bd1 <= 9999999,
            0 <= bd2 <= 9999999,
            bd1 <= bd2,
            i1 as int == nearest_idx_upto(metric, gsrc, palette@, j as int),
            forall|k: int| 0 <= k < j ==> bd1 as int <= pal_dist(metric, gsrc, palette@[k]),
            forall|k: int|
                0 <= k < i1 ==> pal_dist(metric, gsrc, palette@[k]) > bd1 as int,
            forall|k: int|
                0 <= k < j && k != i1 ==> bd2 as int <= pal_dist(metric, gsrc, palette@[k]),
            forall|k: int|
                0 <= k < i2 && k != i1 ==> pal_dist(metric, gsrc, palette@[k]) > bd2 as int,
            i2 as int == second_idx_upto(metric, gsrc, palette@, i1 as int, j as int),
        decreases palette@.len() - j,
    {
        let d = metric_distance(metric, src, entry_lab(palette[j]));
        if d < bd1 {
            bd2 = bd1;
            i2 = i1;
            bd1 = d;
            i1 = j;
            proof {
                lemma_second_eq_nearest_below(metric, gsrc, palette@, i1 as int, j as int);
            }
        } else if d < bd2 {
            bd2 = d;
            i2 = j;
        }
        j = j + 1;
    }
    proof {
        lemma_nearest_minimizes(metric, gsrc, palette@);
        assert(is_second(metric, gsrc, palette@, i1 as int, i2 as int));
    }
    (palette[i1], bd1, palette[i2], bd2)
}

/// Nearest and second-nearest palette colors, without the distances.
pub fn two_closest(r: u8, g: u8, b: u8, palette: &Vec<[u8; 3]>, metric: Metric) -> (res: (
    [u8; 3],
    [u8; 3],
))
    ensures
        palette@.len() == 0 ==> res.0@ =~= seq![r, g, b] && res.1@ =~= seq![r, g, b],
        palette@.len() >= 1 ==> {
            let src = lab_of_rgb(r as int, g as int, b as int);
            let i1 = nearest_idx(metric, src, palette@);
            res.0 == palette@[i1] && is_nearest(metric, src, palette@, i1)
        },
        palette@.len() == 1 ==> res.1 == res.0,
        palette@.len() >= 2 ==> {
            let src = lab_of_rgb(r as int, g as int, b as int);
            let i1 = nearest_idx(metric, src, palette@);
            let i2 = second_idx(metric, src, palette@, i1);
            is_second(metric, src, palette@, i1, i2) && res.1 == palette@[i2]
        },
{
    let (c1, _d1, c2, _d2) = two_closest_with_dist(r, g, b, palette, metric);
    (c1, c2)
}

/// The result of one nearest-color substitution: the first minimal-
/// distance palette entry's RGB with the source alpha.
pub open spec fn nearest_pixel(m: Metric, pal: Seq<[u8; 3]>, p: crate::grid::Rgba) -> crate::grid::Rgba {
    let ci = nearest_idx(m, lab_of_rgb(p.r as int, p.g as int, p.b as int), pal);
    let ch = pal[ci];
    crate::grid::Rgba { r: ch@[0], g: ch@[1], b: ch@[2], a: p.a }
}

/// Replace every pixel by its nearest palette color under the metric,
/// keeping alpha; pixels are independent, so this pass has no cross-pixel
/// dependency. An empty palette leaves the buffer untouched.
pub fn apply_nearest_pass(img: &mut crate::grid::PixelGrid, palette: &Vec<[u8; 3]>, metric: Metric)
    requires
        old(img).wf(),
    ensures
        final(img).wf(),
        final(img).width == old(img).width,
        final(img).height == old(img).height,
        final(img).pixels().len() == old(img).pixels().len(),
        palette@.len() == 0 ==> final(img).pixels() == old(img).pixels(),
        palette@.len() > 0 ==> forall|k: int|
            0 <= k < old(img).pixels().len() ==> final(img).pixels()[k] == nearest_pixel(
                metric,
                palette@,
                old(img).pixels()[k],
            ),
{
    if palette.len() == 0 {
        return ;
    }
    let ghost img0 = img.pixels();
    let total = img.data.len();
    let mut n: usize = 0;
    while n < total
        invariant
            n <= total,
            total == img0.len(),
            img.pixels().len() == img0.len(),
            img.width == old(img).width,
            img.height == old(img).height,
            img.wf(),
            palette@.len() > 0,
            forall|k: int|
                0 <= k < n ==> img.pixels()[k] == nearest_pixel(metric, palette@, img0[k]),
            forall|k: int| n <= k < total ==> img.pixels()[k] == img0[k],
        decreases total - n,
    {
        let p = img.get_flat(n);
        let c = nearest(p.r, p.g, p.b, palette, metric);
        img.set_flat(n, crate::grid::Rgba { r: c[0], g: c[1], b: c[2], a: p.a });
        n = n + 1;
    }
}

} // verus!
