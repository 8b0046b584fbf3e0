use pixeldither::color::{brightness, ciede2000, lab_distance, rgb_to_lab};
use pixeldither::diffusion::{apply_floyd_steinberg, apply_stucki, FloydSteinberg};
use pixeldither::edge::apply_edge_dithering;
use pixeldither::grid::{PixelGrid, Rgba};
use pixeldither::matcher::{nearest, two_closest_with_dist, Metric};
use pixeldither::ordered::{apply_dual_color, bayer4_cell_exec, bayer8_cell_exec, Bayer, Bayer2, Bayer8};
use pixeldither::selective::{apply_ordered_selective, apply_randomized_selective, blue_noise};
use pixeldither::selector::{get_algorithm_by_name, run_algorithm_by_name, AlgorithmKind, DiffusionChoice};

fn grid_of(width: usize, height: usize, pixels: &[(u8, u8, u8, u8)]) -> PixelGrid {
    assert_eq!(width * height, pixels.len());
    let mut g = PixelGrid::new_filled(width, height, Rgba { r: 0, g: 0, b: 0, a: 0 });
    for y in 0..height {
        for x in 0..width {
            let (r, gg, b, a) = pixels[y * width + x];
            g.set(x, y, Rgba { r, g: gg, b, a });
        }
    }
    g
}

fn uniform(width: usize, height: usize, p: (u8, u8, u8, u8)) -> PixelGrid {
    PixelGrid::new_filled(width, height, Rgba { r: p.0, g: p.1, b: p.2, a: p.3 })
}

#[test]
fn lab_of_black_is_zero() {
    let lab = rgb_to_lab(0, 0, 0);
    assert!(lab.l.abs() <= 500, "L of black was {}", lab.l);
    assert!(lab.a.abs() <= 500);
    assert!(lab.b.abs() <= 500);
}

#[test]
fn lab_of_white_is_hundred_zero_zero() {
    let lab = rgb_to_lab(255, 255, 255);
    assert!((lab.l - 100_000).abs() <= 500, "L of white was {}", lab.l);
    assert!(lab.a.abs() <= 500);
    assert!(lab.b.abs() <= 500);
}

#[test]
fn lab_of_red_matches_reference() {
    // CIE reference for sRGB red: L* 53.24, a* 80.09, b* 67.20.
    let lab = rgb_to_lab(255, 0, 0);
    assert!((lab.l - 53_240).abs() <= 700, "L of red was {}", lab.l);
    assert!((lab.a - 80_090).abs() <= 900, "a of red was {}", lab.a);
    assert!((lab.b - 67_200).abs() <= 900, "b of red was {}", lab.b);
}

#[test]
fn ciede2000_is_zero_on_equal_colors() {
    for &(r, g, b) in &[(0u8, 0u8, 0u8), (255, 255, 255), (255, 0, 0), (13, 200, 77), (128, 128, 128)] {
        let lab = rgb_to_lab(r, g, b);
        assert_eq!(ciede2000(lab, lab), 0);
    }
}

#[test]
fn ciede2000_orders_obvious_distances() {
    let red = rgb_to_lab(255, 0, 0);
    let dark_red = rgb_to_lab(200, 0, 0);
    let blue = rgb_to_lab(0, 0, 255);
    let d_close = ciede2000(red, dark_red);
    let d_far = ciede2000(red, blue);
    assert!(d_close > 0);
    assert!(d_far > d_close, "far {} close {}", d_far, d_close);
}

#[test]
fn brightness_is_exact_rec601() {
    assert_eq!(brightness(0, 0, 0), 0);
    assert_eq!(brightness(255, 255, 255), 255_000);
    assert_eq!(brightness(10, 20, 30), 299 * 10 + 587 * 20 + 114 * 30);
}

#[test]
fn nearest_minimizes_and_breaks_ties_low() {
    let palette: Vec<[u8; 3]> = vec![[0, 0, 0], [255, 255, 255], [255, 0, 0], [0, 255, 0]];
    for &(r, g, b) in &[(10u8, 10u8, 10u8), (240, 240, 240), (200, 30, 30), (90, 180, 90)] {
        let c = nearest(r, g, b, &palette, Metric::Ciede2000);
        let src = rgb_to_lab(r, g, b);
        let dc = ciede2000(src, rgb_to_lab(c[0], c[1], c[2]));
        for e in &palette {
            let de = ciede2000(src, rgb_to_lab(e[0], e[1], e[2]));
            assert!(dc <= de);
        }
    }
    // Exact duplicate entries: the first must win.
    let dup: Vec<[u8; 3]> = vec![[7, 7, 7], [7, 7, 7]];
    let c = nearest(7, 7, 7, &dup, Metric::Euclid);
    assert_eq!(c, [7, 7, 7]);
}

#[test]
fn two_closest_distances_are_sorted() {
    let palette: Vec<[u8; 3]> = vec![[0, 0, 0], [128, 128, 128], [255, 255, 255]];
    let (c1, d1, c2, d2) = two_closest_with_dist(100, 100, 100, &palette, Metric::Euclid);
    assert!(d1 <= d2);
    assert_eq!(c1, [128, 128, 128]);
    assert_ne!(c1, c2);
}

#[test]
fn empty_palette_is_identity_for_every_algorithm() {
    let empty: Vec<[u8; 3]> = vec![];
    let names = [
        "Standard", "Enhanced", "Artistic", "Floyd-Steinberg", "Atkinson", "Stucki", "Burkes",
        "Sierra", "Two-Row Sierra", "Sierra Lite", "Jarvis-Judice-Ninke", "Bayer", "Bayer 2x2",
        "Bayer 8x8", "Selective", "Ordered Selective", "Randomized Selective", "Edge Dithering",
        "Dual Color Dithering",
    ];
    let src = grid_of(
        2,
        2,
        &[(1, 2, 3, 4), (200, 100, 50, 255), (0, 255, 0, 0), (77, 66, 55, 44)],
    );
    for name in names {
        let mut img = grid_of(
            2,
            2,
            &[(1, 2, 3, 4), (200, 100, 50, 255), (0, 255, 0, 0), (77, 66, 55, 44)],
        );
        run_algorithm_by_name(&mut img, &empty, name);
        assert_eq!(img.data, src.data, "algorithm {} changed an empty-palette buffer", name);
    }
}

#[test]
fn alpha_is_preserved_by_every_algorithm() {
    let palette: Vec<[u8; 3]> = vec![[0, 0, 0], [255, 255, 255], [255, 0, 0]];
    let names = [
        "Standard", "Enhanced", "Floyd-Steinberg", "Atkinson", "Stucki", "Bayer",
        "Ordered Selective", "Randomized Selective", "Edge Dithering", "Dual Color Dithering",
    ];
    let pixels = [
        (10u8, 20u8, 30u8, 0u8),
        (200, 100, 50, 17),
        (0, 255, 0, 255),
        (77, 66, 55, 128),
        (255, 255, 255, 1),
        (3, 3, 3, 250),
    ];
    for name in names {
        let mut img = grid_of(3, 2, &pixels);
        run_algorithm_by_name(&mut img, &palette, name);
        for k in 0..6 {
            assert_eq!(img.data[k].a, pixels[k].3, "algorithm {} changed alpha", name);
        }
    }
}

#[test]
fn standard_on_pure_red_is_deterministic_argmin() {
    // 4x1 image of pure red; palette black and white; the output must be
    // the entry with the smaller CIEDE2000 to red on all four pixels.
    let palette: Vec<[u8; 3]> = vec![[0, 0, 0], [255, 255, 255]];
    let red = rgb_to_lab(255, 0, 0);
    let d_black = ciede2000(red, rgb_to_lab(0, 0, 0));
    let d_white = ciede2000(red, rgb_to_lab(255, 255, 255));
    let expect: [u8; 3] = if d_white < d_black { [255, 255, 255] } else { [0, 0, 0] };
    let mut img = uniform(4, 1, (255, 0, 0, 255));
    run_algorithm_by_name(&mut img, &palette, "Standard");
    for k in 0..4 {
        let p = img.data[k];
        assert_eq!([p.r, p.g, p.b], expect);
        assert_eq!(p.a, 255);
    }
}

#[test]
fn floyd_steinberg_halftones_mid_gray() {
    // Uniform 50% gray on 100x100 with a black/white palette: the white
    // fraction must land within a few percent of one half.
    let palette: Vec<[u8; 3]> = vec![[0, 0, 0], [255, 255, 255]];
    let mut img = uniform(100, 100, (128, 128, 128, 255));
    apply_floyd_steinberg(&mut img, &palette);
    let mut white = 0usize;
    for p in &img.data {
        let c = [p.r, p.g, p.b];
        assert!(c == [0, 0, 0] || c == [255, 255, 255]);
        if c == [255, 255, 255] {
            white += 1;
        }
    }
    assert!(
        white >= 4500 && white <= 5500,
        "white fraction was {} of 10000",
        white
    );
}

#[test]
fn diffusion_reproduces_exact_palette_image() {
    // Every source pixel equals a palette entry exactly: error diffusion
    // must reproduce the input exactly, propagating zero error.
    let palette: Vec<[u8; 3]> = vec![[0, 0, 0], [255, 255, 255], [255, 0, 0], [0, 0, 255]];
    let pixels = [
        (0u8, 0u8, 0u8, 255u8),
        (255, 255, 255, 255),
        (255, 0, 0, 7),
        (0, 0, 255, 255),
        (255, 0, 0, 255),
        (0, 0, 0, 0),
    ];
    for name in ["Floyd-Steinberg", "Atkinson", "Stucki", "Burkes", "Sierra", "Two-Row Sierra", "Sierra Lite", "Jarvis-Judice-Ninke"] {
        let mut img = grid_of(3, 2, &pixels);
        run_algorithm_by_name(&mut img, &palette, name);
        for k in 0..6 {
            let p = img.data[k];
            assert_eq!(
                (p.r, p.g, p.b, p.a),
                pixels[k],
                "kernel {} altered an exact-palette image",
                name
            );
        }
    }
}

#[test]
fn bayer_matrix_tiles_with_its_period() {
    for y in 0..9usize {
        for x in 0..9usize {
            assert_eq!(bayer4_cell_exec(x, y), bayer4_cell_exec(x + 4, y));
            assert_eq!(bayer4_cell_exec(x, y), bayer4_cell_exec(x, y + 4));
            assert_eq!(bayer8_cell_exec(x, y), bayer8_cell_exec(x + 8, y));
            assert_eq!(bayer8_cell_exec(x, y), bayer8_cell_exec(x, y + 8));
        }
    }
    // Spot values of the published 4x4 matrix.
    assert_eq!(bayer4_cell_exec(0, 0), 0);
    assert_eq!(bayer4_cell_exec(1, 0), 8);
    assert_eq!(bayer4_cell_exec(0, 1), 12);
    assert_eq!(bayer4_cell_exec(3, 3), 5);
}

#[test]
fn bayer_passes_only_use_two_nearest_colors() {
    let palette: Vec<[u8; 3]> = vec![[0, 0, 0], [255, 255, 255], [120, 120, 120]];
    let mut img = uniform(8, 8, (100, 100, 100, 9));
    Bayer.process(&mut img, &palette);
    for p in &img.data {
        let c = [p.r, p.g, p.b];
        assert!(c == [120, 120, 120] || c == [0, 0, 0] || c == [255, 255, 255]);
        assert_eq!(p.a, 9);
    }
    let mut img2 = uniform(4, 4, (100, 100, 100, 9));
    Bayer2.process(&mut img2, &palette);
    let mut img8 = uniform(8, 8, (100, 100, 100, 9));
    Bayer8.process(&mut img8, &palette);
}

#[test]
fn dual_color_splits_on_half_brightness() {
    let palette: Vec<[u8; 3]> = vec![[10, 10, 10], [240, 240, 240]];
    // Bright pixel takes the nearest color, dark pixel the second-nearest.
    let mut bright = uniform(1, 1, (250, 250, 250, 1));
    apply_dual_color(&mut bright, &palette);
    let p = bright.data[0];
    assert_eq!([p.r, p.g, p.b], [240, 240, 240]);
    let mut dark = uniform(1, 1, (5, 5, 5, 1));
    apply_dual_color(&mut dark, &palette);
    let p = dark.data[0];
    // Nearest to near-black is [10,10,10]; dark pixels take the second.
    assert_eq!([p.r, p.g, p.b], [240, 240, 240]);
}

#[test]
fn selective_passes_choose_between_two_nearest() {
    let palette: Vec<[u8; 3]> = vec![[0, 0, 0], [255, 255, 255]];
    let mut a = uniform(8, 8, (128, 128, 128, 3));
    apply_ordered_selective(&mut a, &palette, 25_000);
    for p in &a.data {
        let c = [p.r, p.g, p.b];
        assert!(c == [0, 0, 0] || c == [255, 255, 255]);
        assert_eq!(p.a, 3);
    }
    let mut b = uniform(8, 8, (128, 128, 128, 3));
    apply_randomized_selective(&mut b, &palette, 30_000);
    for p in &b.data {
        let c = [p.r, p.g, p.b];
        assert!(c == [0, 0, 0] || c == [255, 255, 255]);
    }
}

#[test]
fn blue_noise_is_deterministic_and_31_bit() {
    for (x, y) in [(0u32, 0u32), (1, 0), (0, 1), (17, 39), (1000, 1000)] {
        let v = blue_noise(x, y, 12345);
        assert_eq!(v, blue_noise(x, y, 12345));
        assert!(v <= 0x7fffffff);
    }
    assert_ne!(blue_noise(0, 0, 12345), blue_noise(1, 0, 12345));
}

#[test]
fn selector_maps_known_names_and_falls_back() {
    assert_eq!(
        get_algorithm_by_name("Floyd-Steinberg"),
        AlgorithmKind::ErrorDiffusion { kernel: DiffusionChoice::FloydSteinberg }
    );
    assert_eq!(
        get_algorithm_by_name("Stucki"),
        AlgorithmKind::ErrorDiffusion { kernel: DiffusionChoice::Stucki }
    );
    assert_eq!(
        get_algorithm_by_name("Standard"),
        AlgorithmKind::NearestOnly { metric: Metric::Ciede2000 }
    );
    assert_eq!(
        get_algorithm_by_name("Enhanced"),
        AlgorithmKind::NearestOnly { metric: Metric::Weighted }
    );
    assert_eq!(
        get_algorithm_by_name("no such algorithm"),
        AlgorithmKind::NearestOnly { metric: Metric::Ciede2000 }
    );
}

#[test]
fn named_dispatch_matches_direct_call() {
    let palette: Vec<[u8; 3]> = vec![[0, 0, 0], [255, 255, 255], [200, 10, 10]];
    let pixels = [
        (13u8, 37u8, 200u8, 255u8),
        (240, 10, 10, 0),
        (128, 128, 128, 9),
        (1, 254, 3, 99),
    ];
    let mut by_name = grid_of(2, 2, &pixels);
    run_algorithm_by_name(&mut by_name, &palette, "Floyd-Steinberg");
    let mut direct = grid_of(2, 2, &pixels);
    FloydSteinberg.process(&mut direct, &palette);
    assert_eq!(by_name.data, direct.data);
}

#[test]
fn stucki_and_edge_run_on_odd_sizes() {
    let palette: Vec<[u8; 3]> = vec![[0, 0, 0], [255, 255, 255]];
    let mut a = uniform(5, 3, (77, 77, 77, 255));
    apply_stucki(&mut a, &palette);
    for p in &a.data {
        assert!([p.r, p.g, p.b] == [0, 0, 0] || [p.r, p.g, p.b] == [255, 255, 255]);
    }
    let mut e = uniform(5, 3, (77, 77, 77, 255));
    apply_edge_dithering(&mut e, &palette);
    for p in &e.data {
        assert!([p.r, p.g, p.b] == [0, 0, 0] || [p.r, p.g, p.b] == [255, 255, 255]);
    }
}

#[test]
fn euclid_distance_is_exact_on_axis() {
    // Lab distance between black and white is exactly the L difference.
    let black = rgb_to_lab(0, 0, 0);
    let white = rgb_to_lab(255, 255, 255);
    let d = lab_distance(black, white);
    assert!((d - (white.l - black.l)).abs() <= 1);
}

#[test]
fn selector_accepts_the_dashed_spellings() {
    assert_eq!(
        get_algorithm_by_name("Floyd\u{2013}Steinberg"),
        get_algorithm_by_name("Floyd-Steinberg")
    );
    assert_eq!(
        get_algorithm_by_name("Jarvis, Judice, and Ninke"),
        get_algorithm_by_name("Jarvis-Judice-Ninke")
    );
}
