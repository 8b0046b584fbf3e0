//! The algorithm selector: a closed set of algorithm names mapped to a
//! tagged variant, dispatched once per render call. Unknown names fall
//! back to the nearest-color-only pass under CIEDE2000, which never
//! fails; an empty palette turns every algorithm into an identity pass.
use vstd::prelude::*;

use crate::diffusion::apply_atkinson;
use crate::diffusion::apply_burkes;
use crate::diffusion::apply_floyd_steinberg;
use crate::diffusion::apply_jarvis_judice_ninke;
use crate::diffusion::apply_sierra;
use crate::diffusion::apply_sierra_lite;
use crate::diffusion::apply_stucki;
use crate::diffusion::apply_two_row_sierra;
use crate::diffusion::diffuse_spec;
use crate::edge::apply_edge_dithering;
use crate::edge::edge_spec;
use crate::grid::PixelGrid;
use crate::grid::Rgba;
use crate::kernel::atkinson_taps;
use crate::kernel::burkes_taps;
use crate::kernel::floyd_steinberg_taps;
use crate::kernel::jarvis_judice_ninke_taps;
use crate::kernel::sierra_lite_taps;
use crate::kernel::sierra_taps;
use crate::kernel::stucki_taps;
use crate::kernel::two_row_sierra_taps;
use crate::kernel::KernelTap;
use crate::matcher::apply_nearest_pass;
use crate::matcher::nearest_pixel;
use crate::matcher::Metric;
use crate::ordered::bayer_pixel;
use crate::ordered::dual_pixel;
use crate::ordered::apply_dual_color;
use crate::ordered::process_bayer;
use crate::ordered::BayerSize;
use crate::selective::apply_ordered_selective;
use crate::selective::apply_randomized_selective;
use crate::selective::apply_selective;
use crate::selective::ordered_selective_pixel;
use crate::selective::randomized_selective_pixel;
use crate::text::str_eq;

verus! {

/// The error-diffusion kernels the selector can choose.
#[derive(Clone, Copy, PartialEq, Eq, Structural, Debug)]
pub enum DiffusionChoice {
    FloydSteinberg,
    Atkinson,
    Stucki,
    Burkes,
    Sierra,
    TwoRowSierra,
    SierraLite,
    JarvisJudiceNinke,
}

impl DiffusionChoice {
    /// The tap table of the chosen kernel.
    pub open spec fn taps(self) -> Seq<KernelTap> {
        match self {
            DiffusionChoice::FloydSteinberg => floyd_steinberg_taps(),
            DiffusionChoice::Atkinson => atkinson_taps(),
            DiffusionChoice::Stucki => stucki_taps(),
            DiffusionChoice::Burkes => burkes_taps(),
            DiffusionChoice::Sierra => sierra_taps(),
            DiffusionChoice::TwoRowSierra => two_row_sierra_taps(),
            DiffusionChoice::SierraLite => sierra_lite_taps(),
            DiffusionChoice::JarvisJudiceNinke => jarvis_judice_ninke_taps(),
        }
    }

    /// Whether the chosen kernel scans serpentine.
    pub open spec fn serpentine(self) -> bool {
        match self {
            DiffusionChoice::FloydSteinberg => false,
            DiffusionChoice::Atkinson => false,
            _ => true,
        }
    }

    /// The shared weight denominator of the chosen kernel.
    pub open spec fn den(self) -> int {
        match self {
            DiffusionChoice::FloydSteinberg => 16,
            DiffusionChoice::Atkinson => 8,
            DiffusionChoice::Stucki => 42,
            DiffusionChoice::Burkes => 32,
            DiffusionChoice::Sierra => 32,
            DiffusionChoice::TwoRowSierra => 16,
            DiffusionChoice::SierraLite => 4,
            DiffusionChoice::JarvisJudiceNinke => 48,
        }
    }
}

/// The secondary signal of a threshold-selective pass.
#[derive(Clone, Copy, PartialEq, Eq, Structural, Debug)]
pub enum SelectiveMode {
    /// No secondary signal: the nearest color is always taken.
    Plain,
    /// The 8x8 ordered matrix cell.
    Ordered,
    /// The deterministic position hash.
    Randomized,
}

/// A closed tagged variant for every algorithm the engine offers.
#[derive(Clone, Copy, PartialEq, Eq, Structural, Debug)]
pub enum AlgorithmKind {
    /// Replace each pixel by its nearest palette color under a metric.
    NearestOnly { metric: Metric },
    /// A two-buffer error-diffusion pass under one of the kernels.
    ErrorDiffusion { kernel: DiffusionChoice },
    /// The brightness-gated Bayer matrix pass.
    OrderedBayer { matrix_size: BayerSize },
    /// A threshold-gated choice between the two nearest colors; the
    /// threshold is in milli-units of Euclidean Lab distance.
    SelectiveThreshold { mode: SelectiveMode, threshold: i64 },
    /// The Sobel-steered edge-aware diffusion pass.
    EdgeAware,
    /// Nearest color for bright pixels, second-nearest otherwise.
    DualColorByBrightness,
}

/// The buffer an algorithm produces from the original pixels, for a
/// non-empty palette.
pub open spec fn algorithm_output(
    kind: AlgorithmKind,
    img0: Seq<Rgba>,
    w: int,
    h: int,
    pal: Seq<[u8; 3]>,
) -> Seq<Rgba> {
    match kind {
        AlgorithmKind::NearestOnly { metric } => Seq::new(
            img0.len(),
            |k: int| nearest_pixel(metric, pal, img0[k]),
        ),
        AlgorithmKind::ErrorDiffusion { kernel } => diffuse_spec(
            img0,
            w,
            h,
            pal,
            kernel.taps(),
            kernel.serpentine(),
            kernel.den(),
        ),
        AlgorithmKind::OrderedBayer { matrix_size } => Seq::new(
            img0.len(),
            |k: int| bayer_pixel(matrix_size, pal, img0[k], k % w, k / w),
        ),
        AlgorithmKind::SelectiveThreshold { mode, threshold } => match mode {
            SelectiveMode::Plain => Seq::new(
                img0.len(),
                |k: int| nearest_pixel(Metric::Euclid, pal, img0[k]),
            ),
            SelectiveMode::Ordered => Seq::new(
                img0.len(),
                |k: int|
                    ordered_selective_pixel(pal, img0[k], k % w, k / w, threshold as int),
            ),
            SelectiveMode::Randomized => Seq::new(
                img0.len(),
                |k: int|
                    randomized_selective_pixel(
                        pal,
                        img0[k],
                        k % w,
                        k / w,
                        threshold as int,
                        12345,
                    ),
            ),
        },
        AlgorithmKind::EdgeAware => edge_spec(img0, w, h, pal),
        AlgorithmKind::DualColorByBrightness => Seq::new(
            img0.len(),
            |k: int| dual_pixel(pal, img0[k]),
        ),
    }
}

/// The algorithm a name selects; unrecognized names select the
/// nearest-color pass under CIEDE2000 ("Standard").
pub open spec fn algorithm_for(nm: Seq<char>) -> AlgorithmKind {
    if nm == "Floyd-Steinberg"@ || nm == "Floyd\u{2013}Steinberg"@ {
        AlgorithmKind::ErrorDiffusion { kernel: DiffusionChoice::FloydSteinberg }
    } else if nm == "Atkinson"@ {
        AlgorithmKind::ErrorDiffusion { kernel: DiffusionChoice::Atkinson }
    } else if nm == "Stucki"@ {
        AlgorithmKind::ErrorDiffusion { kernel: DiffusionChoice::Stucki }
    } else if nm == "Burkes"@ {
        AlgorithmKind::ErrorDiffusion { kernel: DiffusionChoice::Burkes }
    } else if nm == "Sierra"@ {
        AlgorithmKind::ErrorDiffusion { kernel: DiffusionChoice::Sierra }
    } else if nm == "Two-Row Sierra"@ {
        AlgorithmKind::ErrorDiffusion { kernel: DiffusionChoice::TwoRowSierra }
    } else if nm == "Sierra Lite"@ {
        AlgorithmKind::ErrorDiffusion { kernel: DiffusionChoice::SierraLite }
    } else if nm == "Jarvis-Judice-Ninke"@ || nm == "Jarvis, Judice, and Ninke"@ {
        AlgorithmKind::ErrorDiffusion { kernel: DiffusionChoice::JarvisJudiceNinke }
    } else if nm == "Bayer"@ {
        AlgorithmKind::OrderedBayer { matrix_size: BayerSize::Four }
    } else if nm == "Bayer 2x2"@ {
        AlgorithmKind::OrderedBayer { matrix_size: BayerSize::Two }
    } else if nm == "Bayer 8x8"@ {
        AlgorithmKind::OrderedBayer { matrix_size: BayerSize::Eight }
    } else if nm == "Selective"@ {
        AlgorithmKind::SelectiveThreshold { mode: SelectiveMode::Plain, threshold: 25000 }
    } else if nm == "Ordered Selective"@ {
        AlgorithmKind::SelectiveThreshold { mode: SelectiveMode::Ordered, threshold: 25000 }
    } else if nm == "Randomized Selective"@ {
        AlgorithmKind::SelectiveThreshold { mode: SelectiveMode::Randomized, threshold: 30000 }
    } else if nm == "Edge Dithering"@ {
        AlgorithmKind::EdgeAware
    } else if nm == "Dual Color Dithering"@ {
        AlgorithmKind::DualColorByBrightness
    } else if nm == "Enhanced"@ {
        AlgorithmKind::NearestOnly { metric: Metric::Weighted }
    } else if nm == "Artistic"@ {
        AlgorithmKind::NearestOnly { metric: Metric::Euclid }
    } else {
        AlgorithmKind::NearestOnly { metric: Metric::Ciede2000 }
    }
}

/// Map an algorithm name to its variant; exact mirror of
/// `algorithm_for`.
pub fn get_algorithm_by_name(name: &str) -> (k: AlgorithmKind)
    ensures
        k == algorithm_for(name@),
{
    if str_eq(name, "Floyd-Steinberg") || str_eq(name, "Floyd\u{2013}Steinberg") {
        AlgorithmKind::ErrorDiffusion { kernel: DiffusionChoice::FloydSteinberg }
    } else if str_eq(name, "Atkinson") {
        AlgorithmKind::ErrorDiffusion { kernel: DiffusionChoice::Atkinson }
    } else if str_eq(name, "Stucki") {
        AlgorithmKind::ErrorDiffusion { kernel: DiffusionChoice::Stucki }
    } else if str_eq(name, "Burkes") {
        AlgorithmKind::ErrorDiffusion { kernel: DiffusionChoice::Burkes }
    } else if str_eq(name, "Sierra") {
        AlgorithmKind::ErrorDiffusion { kernel: DiffusionChoice::Sierra }
    } else if str_eq(name, "Two-Row Sierra") {
        AlgorithmKind::ErrorDiffusion { kernel: DiffusionChoice::TwoRowSierra }
    } else if str_eq(name, "Sierra Lite") {
        AlgorithmKind::ErrorDiffusion { kernel: DiffusionChoice::SierraLite }
    } else if str_eq(name, "Jarvis-Judice-Ninke") || str_eq(name, "Jarvis, Judice, and Ninke") {
        AlgorithmKind::ErrorDiffusion { kernel: DiffusionChoice::JarvisJudiceNinke }
    } else if str_eq(name, "Bayer") {
        AlgorithmKind::OrderedBayer { matrix_size: BayerSize::Four }
    } else if str_eq(name, "Bayer 2x2") {
        AlgorithmKind::OrderedBayer { matrix_size: BayerSize::Two }
    } else if str_eq(name, "Bayer 8x8") {
        AlgorithmKind::OrderedBayer { matrix_size: BayerSize::Eight }
    } else if str_eq(name, "Selective") {
        AlgorithmKind::SelectiveThreshold { mode: SelectiveMode::Plain, threshold: 25000 }
    } else if str_eq(name, "Ordered Selective") {
        AlgorithmKind::SelectiveThreshold { mode: SelectiveMode::Ordered, threshold: 25000 }
    } else if str_eq(name, "Randomized Selective") {
        AlgorithmKind::SelectiveThreshold { mode: SelectiveMode::Randomized, threshold: 30000 }
    } else if str_eq(name, "Edge Dithering") {
        AlgorithmKind::EdgeAware
    } else if str_eq(name, "Dual Color Dithering") {
        AlgorithmKind::DualColorByBrightness
    } else if str_eq(name, "Enhanced") {
        AlgorithmKind::NearestOnly { metric: Metric::Weighted }
    } else if str_eq(name, "Artistic") {
        AlgorithmKind::NearestOnly { metric: Metric::Euclid }
    } else {
        AlgorithmKind::NearestOnly { metric: Metric::Ciede2000 }
    }
}

/// Run one algorithm over the grid in place. An empty palette leaves the
/// buffer byte-identical; otherwise the buffer becomes exactly
/// `algorithm_output` of its original pixels.
pub fn apply_algorithm(img: &mut PixelGrid, palette: &Vec<[u8; 3]>, kind: AlgorithmKind)
    requires
        old(img).wf(),
        old(img).width < 100000000,
        old(img).height < 100000000,
        (kind matches AlgorithmKind::SelectiveThreshold { mode, threshold } ==> 0 <= threshold
            <= 10000000),
    ensures
        final(img).wf(),
        final(img).width == old(img).width,
        final(img).height == old(img).height,
        palette@.len() == 0 ==> final(img).pixels() == old(img).pixels(),
        palette@.len() > 0 ==> final(img).pixels() == algorithm_output(
            kind,
            old(img).pixels(),
            old(img).width as int,
            old(img).height as int,
            palette@,
        ),
{
    let ghost img0 = img.pixels();
    let ghost gw = img.width as int;
    let ghost gh = img.height as int;
    match kind {
        AlgorithmKind::NearestOnly { metric } => {
            apply_nearest_pass(img, palette, metric);
            proof {
                if palette@.len() > 0 {
                    assert(img.pixels() =~= algorithm_output(kind, img0, gw, gh, palette@));
                }
            }
        },
        AlgorithmKind::ErrorDiffusion { kernel } => {
            match kernel {
                DiffusionChoice::FloydSteinberg => apply_floyd_steinberg(img, palette),
                DiffusionChoice::Atkinson => apply_atkinson(img, palette),
                DiffusionChoice::Stucki => apply_stucki(img, palette),
                DiffusionChoice::Burkes => apply_burkes(img, palette),
                DiffusionChoice::Sierra => apply_sierra(img, palette),
                DiffusionChoice::TwoRowSierra => apply_two_row_sierra(img, palette),
                DiffusionChoice::SierraLite => apply_sierra_lite(img, palette),
                DiffusionChoice::JarvisJudiceNinke => apply_jarvis_judice_ninke(img, palette),
            }
        },
        AlgorithmKind::OrderedBayer { matrix_size } => {
            process_bayer(img, palette, matrix_size);
            proof {
                if palette@.len() > 0 {
                    assert(img.pixels() =~= algorithm_output(kind, img0, gw, gh, palette@));
                }
            }
        },
        AlgorithmKind::SelectiveThreshold { mode, threshold } => {
            match mode {
                SelectiveMode::Plain => apply_selective(img, palette, threshold),
                SelectiveMode::Ordered => apply_ordered_selective(img, palette, threshold),
                SelectiveMode::Randomized => apply_randomized_selective(img, palette, threshold),
            }
            proof {
                if palette@.len() > 0 {
                    assert(img.pixels() =~= algorithm_output(kind, img0, gw, gh, palette@));
                }
            }
        },
        AlgorithmKind::EdgeAware => {
            apply_edge_dithering(img, palette);
        },
        AlgorithmKind::DualColorByBrightness => {
            apply_dual_color(img, palette);
            proof {
                if palette@.len() > 0 {
                    assert(img.pixels() =~= algorithm_output(kind, img0, gw, gh, palette@));
                }
            }
        },
    }
}

/// Run the algorithm a name selects; unknown names run the Standard
/// nearest-color pass.
pub fn run_algorithm_by_name(img: &mut PixelGrid, palette: &Vec<[u8; 3]>, name: &str)
    requires
        old(img).wf(),
        old(img).width < 100000000,
        old(img).height < 100000000,
    ensures
        final(img).wf(),
        final(img).width == old(img).width,
        final(img).height == old(img).height,
        palette@.len() == 0 ==> final(img).pixels() == old(img).pixels(),
        palette@.len() > 0 ==> final(img).pixels() == algorithm_output(
            algorithm_for(name@),
            old(img).pixels(),
            old(img).width as int,
            old(img).height as int,
            palette@,
        ),
{
    let kind = get_algorithm_by_name(name);
    apply_algorithm(img, palette, kind);
}


/// Law: for every algorithm and every input, the output alpha channel
/// equals the input alpha channel, pixel for pixel, and the buffer keeps
/// its length.
pub proof fn lemma_alpha_invariant(
    kind: AlgorithmKind,
    img0: Seq<Rgba>,
    w: int,
    h: int,
    pal: Seq<[u8; 3]>,
)
    requires
        0 <= w,
        0 <= h,
        img0.len() == w * h,
    ensures
        algorithm_output(kind, img0, w, h, pal).len() == img0.len(),
        forall|k: int|
            0 <= k < img0.len() ==> algorithm_output(kind, img0, w, h, pal)[k].a == img0[k].a,
{
    match kind {
        AlgorithmKind::ErrorDiffusion { kernel } => {
            crate::diffusion::lemma_diffuse_alpha(
                img0,
                w,
                h,
                pal,
                kernel.taps(),
                kernel.serpentine(),
                kernel.den(),
                w * h,
            );
        },
        AlgorithmKind::EdgeAware => {
            crate::edge::lemma_edge_alpha(img0, w, h, pal, w * h);
        },
        _ => {
        },
    }
}

} // verus!
