//! Declarative error-diffusion kernels: an ordered list of
//! (dx, dy, weight-numerator) taps, a shared denominator, and a scan-order
//! flag. On serpentine kernels odd rows scan right-to-left with all
//! horizontal offsets mirrored.
use vstd::prelude::*;

verus! {

/// One diffusion tap: the neighbor offset and its weight numerator.
#[derive(Clone, Copy, PartialEq, Eq, Structural, Debug)]
pub struct KernelTap {
    pub dx: i64,
    pub dy: i64,
    pub num: i64,
}

/// An error-diffusion kernel: taps, shared weight denominator, scan order.
pub struct DiffusionKernel {
    pub taps: Vec<KernelTap>,
    pub den: i64,
    pub serpentine: bool,
}

impl DiffusionKernel {
    /// Offsets stay within three rows and columns and weights never exceed
    /// the denominator, so the propagated error per tap stays within one
    /// byte range.
    pub open spec fn wf(self) -> bool {
        &&& 0 < self.den <= 100
        &&& forall|t: int|
            0 <= t < self.taps@.len() ==> {
                let tap = #[trigger] self.taps@[t];
                -3 <= tap.dx <= 3 && 0 <= tap.dy <= 3 && 0 < tap.num <= self.den
            }
    }
}

/// The effective horizontal offset of a tap on row `y`: mirrored on odd
/// rows of a serpentine scan, as tabled otherwise.
pub open spec fn eff_dx(serpentine: bool, y: int, dx: int) -> int {
    if serpentine && y % 2 == 1 {
        -dx
    } else {
        dx
    }
}

/// Law: on a serpentine kernel the effective horizontal offsets used on an
/// odd row are the exact mirror of those used on an even row; in
/// particular row 1 mirrors row 0.
pub proof fn lemma_serpentine_mirror(dx: int, y_even: int, y_odd: int)
    requires
        y_even % 2 == 0,
        y_odd % 2 == 1,
    ensures
        eff_dx(true, y_odd, dx) == -eff_dx(true, y_even, dx),
        eff_dx(true, 1, dx) == -eff_dx(true, 0, dx),
{
}

/// Push helper so each kernel constructor reads as its published table.
fn tap(taps: &mut Vec<KernelTap>, dx: i64, dy: i64, num: i64)
    ensures
        final(taps)@ == old(taps)@.push(KernelTap { dx, dy, num }),
{
    taps.push(KernelTap { dx, dy, num });
}

/// The tap table of the floyd steinberg kernel.
pub open spec fn floyd_steinberg_taps() -> Seq<KernelTap> {
    seq![
        (KernelTap { dx: 1i64, dy: 0i64, num: 7i64 }),
        (KernelTap { dx: -1i64, dy: 1i64, num: 3i64 }),
        (KernelTap { dx: 0i64, dy: 1i64, num: 5i64 }),
        (KernelTap { dx: 1i64, dy: 1i64, num: 1i64 }),
    ]
}

/// Floyd-Steinberg: denominator 16, raster scan.
pub fn floyd_steinberg_kernel() -> (k: DiffusionKernel)
    ensures
        k.wf(),
        !k.serpentine,
        k.den == 16,
        k.taps@ == floyd_steinberg_taps(),
{
    let mut taps: Vec<KernelTap> = Vec::new();
    tap(&mut taps, 1, 0, 7);
    tap(&mut taps, -1, 1, 3);
    tap(&mut taps, 0, 1, 5);
    tap(&mut taps, 1, 1, 1);
    proof {
        assert(taps@ =~= floyd_steinberg_taps());
    }
    DiffusionKernel { taps, den: 16, serpentine: false }
}

/// The tap table of the atkinson kernel.
pub open spec fn atkinson_taps() -> Seq<KernelTap> {
    seq![
        (KernelTap { dx: 1i64, dy: 0i64, num: 1i64 }),
        (KernelTap { dx: 2i64, dy: 0i64, num: 1i64 }),
        (KernelTap { dx: -1i64, dy: 1i64, num: 1i64 }),
        (KernelTap { dx: 0i64, dy: 1i64, num: 1i64 }),
        (KernelTap { dx: 1i64, dy: 1i64, num: 1i64 }),
        (KernelTap { dx: 0i64, dy: 2i64, num: 1i64 }),
    ]
}

/// Atkinson: denominator 8, six taps of weight 1, raster scan. The
/// weights sum to 6, deliberately discarding a quarter of the error.
pub fn atkinson_kernel() -> (k: DiffusionKernel)
    ensures
        k.wf(),
        !k.serpentine,
        k.den == 8,
        k.taps@ == atkinson_taps(),
{
    let mut taps: Vec<KernelTap> = Vec::new();
    tap(&mut taps, 1, 0, 1);
    tap(&mut taps, 2, 0, 1);
    tap(&mut taps, -1, 1, 1);
    tap(&mut taps, 0, 1, 1);
    tap(&mut taps, 1, 1, 1);
    tap(&mut taps, 0, 2, 1);
    proof {
        assert(taps@ =~= atkinson_taps());
    }
    DiffusionKernel { taps, den: 8, serpentine: false }
}

/// The tap table of the stucki kernel.
pub open spec fn stucki_taps() -> Seq<KernelTap> {
    seq![
        (KernelTap { dx: 1i64, dy: 0i64, num: 8i64 }),
        (KernelTap { dx: 2i64, dy: 0i64, num: 4i64 }),
        (KernelTap { dx: -2i64, dy: 1i64, num: 2i64 }),
        (KernelTap { dx: -1i64, dy: 1i64, num: 4i64 }),
        (KernelTap { dx: 0i64, dy: 1i64, num: 8i64 }),
        (KernelTap { dx: 1i64, dy: 1i64, num: 4i64 }),
        (KernelTap { dx: 2i64, dy: 1i64, num: 2i64 }),
        (KernelTap { dx: -2i64, dy: 2i64, num: 1i64 }),
        (KernelTap { dx: -1i64, dy: 2i64, num: 2i64 }),
        (KernelTap { dx: 0i64, dy: 2i64, num: 4i64 }),
        (KernelTap { dx: 1i64, dy: 2i64, num: 2i64 }),
        (KernelTap { dx: 2i64, dy: 2i64, num: 1i64 }),
    ]
}

/// Stucki: denominator 42, serpentine scan.
pub fn stucki_kernel() -> (k: DiffusionKernel)
    ensures
        k.wf(),
        k.serpentine,
        k.den == 42,
        k.taps@ == stucki_taps(),
{
    let mut taps: Vec<KernelTap> = Vec::new();
    tap(&mut taps, 1, 0, 8);
    tap(&mut taps, 2, 0, 4);
    tap(&mut taps, -2, 1, 2);
    tap(&mut taps, -1, 1, 4);
    tap(&mut taps, 0, 1, 8);
    tap(&mut taps, 1, 1, 4);
    tap(&mut taps, 2, 1, 2);
    tap(&mut taps, -2, 2, 1);
    tap(&mut taps, -1, 2, 2);
    tap(&mut taps, 0, 2, 4);
    tap(&mut taps, 1, 2, 2);
    tap(&mut taps, 2, 2, 1);
    proof {
        assert(taps@ =~= stucki_taps());
    }
    DiffusionKernel { taps, den: 42, serpentine: true }
}

/// The tap table of the burkes kernel.
pub open spec fn burkes_taps() -> Seq<KernelTap> {
    seq![
        (KernelTap { dx: 1i64, dy: 0i64, num: 8i64 }),
        (KernelTap { dx: 2i64, dy: 0i64, num: 4i64 }),
        (KernelTap { dx: -2i64, dy: 1i64, num: 2i64 }),
        (KernelTap { dx: -1i64, dy: 1i64, num: 4i64 }),
        (KernelTap { dx: 0i64, dy: 1i64, num: 8i64 }),
        (KernelTap { dx: 1i64, dy: 1i64, num: 4i64 }),
        (KernelTap { dx: 2i64, dy: 1i64, num: 2i64 }),
    ]
}

/// Burkes: denominator 32, serpentine scan.
pub fn burkes_kernel() -> (k: DiffusionKernel)
    ensures
        k.wf(),
        k.serpentine,
        k.den == 32,
        k.taps@ == burkes_taps(),
{
    let mut taps: Vec<KernelTap> = Vec::new();
    tap(&mut taps, 1, 0, 8);
    tap(&mut taps, 2, 0, 4);
    tap(&mut taps, -2, 1, 2);
    tap(&mut taps, -1, 1, 4);
    tap(&mut taps, 0, 1, 8);
    tap(&mut taps, 1, 1, 4);
    tap(&mut taps, 2, 1, 2);
    proof {
        assert(taps@ =~= burkes_taps());
    }
    DiffusionKernel { taps, den: 32, serpentine: true }
}

/// The tap table of the sierra kernel.
pub open spec fn sierra_taps() -> Seq<KernelTap> {
    seq![
        (KernelTap { dx: 1i64, dy: 0i64, num: 5i64 }),
        (KernelTap { dx: 2i64, dy: 0i64, num: 3i64 }),
        (KernelTap { dx: -2i64, dy: 1i64, num: 2i64 }),
        (KernelTap { dx: -1i64, dy: 1i64, num: 4i64 }),
        (KernelTap { dx: 0i64, dy: 1i64, num: 5i64 }),
        (KernelTap { dx: 1i64, dy: 1i64, num: 4i64 }),
        (KernelTap { dx: 2i64, dy: 1i64, num: 2i64 }),
        (KernelTap { dx: -1i64, dy: 2i64, num: 2i64 }),
        (KernelTap { dx: 0i64, dy: 2i64, num: 3i64 }),
        (KernelTap { dx: 1i64, dy: 2i64, num: 2i64 }),
    ]
}

/// Three-row Sierra: denominator 32, serpentine scan.
pub fn sierra_kernel() -> (k: DiffusionKernel)
    ensures
        k.wf(),
        k.serpentine,
        k.den == 32,
        k.taps@ == sierra_taps(),
{
    let mut taps: Vec<KernelTap> = Vec::new();
    tap(&mut taps, 1, 0, 5);
    tap(&mut taps, 2, 0, 3);
    tap(&mut taps, -2, 1, 2);
    tap(&mut taps, -1, 1, 4);
    tap(&mut taps, 0, 1, 5);
    tap(&mut taps, 1, 1, 4);
    tap(&mut taps, 2, 1, 2);
    tap(&mut taps, -1, 2, 2);
    tap(&mut taps, 0, 2, 3);
    tap(&mut taps, 1, 2, 2);
    proof {
        assert(taps@ =~= sierra_taps());
    }
    DiffusionKernel { taps, den: 32, serpentine: true }
}

/// The tap table of the two row sierra kernel.
pub open spec fn two_row_sierra_taps() -> Seq<KernelTap> {
    seq![
        (KernelTap { dx: 1i64, dy: 0i64, num: 4i64 }),
        (KernelTap { dx: 2i64, dy: 0i64, num: 3i64 }),
        (KernelTap { dx: -2i64, dy: 1i64, num: 1i64 }),
        (KernelTap { dx: -1i64, dy: 1i64, num: 2i64 }),
        (KernelTap { dx: 0i64, dy: 1i64, num: 3i64 }),
        (KernelTap { dx: 1i64, dy: 1i64, num: 2i64 }),
        (KernelTap { dx: 2i64, dy: 1i64, num: 1i64 }),
    ]
}

/// Two-row Sierra: denominator 16, serpentine scan.
pub fn two_row_sierra_kernel() -> (k: DiffusionKernel)
    ensures
        k.wf(),
        k.serpentine,
        k.den == 16,
        k.taps@ == two_row_sierra_taps(),
{
    let mut taps: Vec<KernelTap> = Vec::new();
    tap(&mut taps, 1, 0, 4);
    tap(&mut taps, 2, 0, 3);
    tap(&mut taps, -2, 1, 1);
    tap(&mut taps, -1, 1, 2);
    tap(&mut taps, 0, 1, 3);
    tap(&mut taps, 1, 1, 2);
    tap(&mut taps, 2, 1, 1);
    proof {
        assert(taps@ =~= two_row_sierra_taps());
    }
    DiffusionKernel { taps, den: 16, serpentine: true }
}

/// The tap table of the sierra lite kernel.
pub open spec fn sierra_lite_taps() -> Seq<KernelTap> {
    seq![
        (KernelTap { dx: 1i64, dy: 0i64, num: 2i64 }),
        (KernelTap { dx: -1i64, dy: 1i64, num: 1i64 }),
        (KernelTap { dx: 0i64, dy: 1i64, num: 1i64 }),
    ]
}

/// Sierra Lite: denominator 4, serpentine scan.
pub fn sierra_lite_kernel() -> (k: DiffusionKernel)
    ensures
        k.wf(),
        k.serpentine,
        k.den == 4,
        k.taps@ == sierra_lite_taps(),
{
    let mut taps: Vec<KernelTap> = Vec::new();
    tap(&mut taps, 1, 0, 2);
    tap(&mut taps, -1, 1, 1);
    tap(&mut taps, 0, 1, 1);
    proof {
        assert(taps@ =~= sierra_lite_taps());
    }
    DiffusionKernel { taps, den: 4, serpentine: true }
}

/// The tap table of the jarvis judice ninke kernel.
pub open spec fn jarvis_judice_ninke_taps() -> Seq<KernelTap> {
    seq![
        (KernelTap { dx: 1i64, dy: 0i64, num: 7i64 }),
        (KernelTap { dx: 2i64, dy: 0i64, num: 5i64 }),
        (KernelTap { dx: -2i64, dy: 1i64, num: 3i64 }),
        (KernelTap { dx: -1i64, dy: 1i64, num: 5i64 }),
        (KernelTap { dx: 0i64, dy: 1i64, num: 7i64 }),
        (KernelTap { dx: 1i64, dy: 1i64, num: 5i64 }),
        (KernelTap { dx: 2i64, dy: 1i64, num: 3i64 }),
        (KernelTap { dx: -2i64, dy: 2i64, num: 1i64 }),
        (KernelTap { dx: -1i64, dy: 2i64, num: 3i64 }),
        (KernelTap { dx: 0i64, dy: 2i64, num: 5i64 }),
        (KernelTap { dx: 1i64, dy: 2i64, num: 3i64 }),
        (KernelTap { dx: 2i64, dy: 2i64, num: 1i64 }),
    ]
}

/// Jarvis-Judice-Ninke: denominator 48, the standard three-row
/// twelve-tap table, serpentine scan.
pub fn jarvis_judice_ninke_kernel() -> (k: DiffusionKernel)
    ensures
        k.wf(),
        k.serpentine,
        k.den == 48,
        k.taps@ == jarvis_judice_ninke_taps(),
{
    let mut taps: Vec<KernelTap> = Vec::new();
    tap(&mut taps, 1, 0, 7);
    tap(&mut taps, 2, 0, 5);
    tap(&mut taps, -2, 1, 3);
    tap(&mut taps, -1, 1, 5);
    tap(&mut taps, 0, 1, 7);
    tap(&mut taps, 1, 1, 5);
    tap(&mut taps, 2, 1, 3);
    tap(&mut taps, -2, 2, 1);
    tap(&mut taps, -1, 2, 3);
    tap(&mut taps, 0, 2, 5);
    tap(&mut taps, 1, 2, 3);
    tap(&mut taps, 2, 2, 1);
    proof {
        assert(taps@ =~= jarvis_judice_ninke_taps());
    }
    DiffusionKernel { taps, den: 48, serpentine: true }
}

} // verus!
