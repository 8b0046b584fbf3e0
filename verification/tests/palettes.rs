use pixeldither::color::hex_to_rgb;
use pixeldither::palette::{
    built_in_palettes, get_palette_by_name, maybe_modify_palette, parse_grid_value, resolve_grid,
};

#[test]
fn hex_parses_plain_and_hashed() {
    assert_eq!(hex_to_rgb("#ff0000"), Some([255, 0, 0]));
    assert_eq!(hex_to_rgb("00ff00"), Some([0, 255, 0]));
    assert_eq!(hex_to_rgb("#A1b2C3"), Some([0xa1, 0xb2, 0xc3]));
    assert_eq!(hex_to_rgb("  #0000ff  "), Some([0, 0, 255]));
}

#[test]
fn hex_rejects_malformed_strings() {
    assert_eq!(hex_to_rgb(""), None);
    assert_eq!(hex_to_rgb("#ff00"), None);
    assert_eq!(hex_to_rgb("#ff00000"), None);
    assert_eq!(hex_to_rgb("zzzzzz"), None);
    assert_eq!(hex_to_rgb("#ff 000"), None);
}

#[test]
fn built_ins_have_expected_names_and_colors() {
    let pals = built_in_palettes();
    assert_eq!(pals.len(), 6);
    let names: Vec<&str> = pals.iter().map(|p| p.name.as_str()).collect();
    assert_eq!(
        names,
        vec![
            "Flying Tiger",
            "Black & White",
            "Cozy 8",
            "Retro Gaming",
            "Sunset Vibes",
            "Forest Dreams"
        ]
    );
    assert_eq!(pals[0].colors.len(), 10);
    assert_eq!(pals[0].colors[0], [0, 0, 0]);
    assert_eq!(pals[0].colors[1], [255, 255, 255]);
    assert_eq!(pals[0].colors[2], [255, 0, 0]);
    assert_eq!(pals[1].colors, vec![[0, 0, 0], [255, 255, 255]]);
    assert_eq!(pals[2].colors[0], [0x2e, 0x29, 0x4e]);
}

#[test]
fn palette_lookup_matches_and_falls_back() {
    let p = get_palette_by_name("Black & White");
    assert_eq!(p.name, "Black & White");
    assert_eq!(p.colors, vec![[0, 0, 0], [255, 255, 255]]);
    let q = get_palette_by_name("definitely not a palette");
    assert_eq!(q.name, "Flying Tiger");
    assert_eq!(q.colors.len(), 10);
}

#[test]
fn palette_augmentation_avoids_duplicates() {
    let mut colors: Vec<[u8; 3]> = vec![[0, 0, 0], [10, 20, 30]];
    maybe_modify_palette(&mut colors, true, true);
    assert_eq!(colors, vec![[0, 0, 0], [10, 20, 30], [255, 255, 255]]);
    let mut colors2: Vec<[u8; 3]> = vec![[1, 1, 1]];
    maybe_modify_palette(&mut colors2, true, false);
    assert_eq!(colors2, vec![[1, 1, 1], [0, 0, 0]]);
    let mut colors3: Vec<[u8; 3]> = vec![[1, 1, 1]];
    maybe_modify_palette(&mut colors3, false, false);
    assert_eq!(colors3, vec![[1, 1, 1]]);
}

#[test]
fn grid_values_parse_with_either_separator() {
    assert_eq!(parse_grid_value("32"), Some((32, 32)));
    assert_eq!(parse_grid_value("384x192"), Some((384, 192)));
    assert_eq!(parse_grid_value(" 64X32 "), Some((64, 32)));
    assert_eq!(parse_grid_value("0"), Some((1, 1)));
    assert_eq!(parse_grid_value("0x7"), Some((1, 7)));
    assert_eq!(parse_grid_value("abc"), None);
    assert_eq!(parse_grid_value("12x"), None);
    assert_eq!(parse_grid_value(""), None);
}

#[test]
fn grid_resolution_prefers_the_string() {
    assert_eq!(resolve_grid(&Some(String::from("16x9")), 100, 100), (16, 9));
    assert_eq!(resolve_grid(&Some(String::from("junk")), 100, 50), (100, 50));
    assert_eq!(resolve_grid(&None, 0, 7), (1, 7));
}

#[test]
fn gpl_parses_names_colors_and_comments() {
    let text = "GIMP Palette\n#Palette Name: Warm\n# a comment\n255 0 0 red\n 0 255  0\t\n0 0 255\n";
    let p = pixeldither::palette::parse_gpl(text, "fallback").expect("should parse");
    assert_eq!(p.name, "Warm");
    assert_eq!(p.colors, vec![[255, 0, 0], [0, 255, 0], [0, 0, 255]]);
}

#[test]
fn gpl_uses_fallback_name_and_last_declaration() {
    let p = pixeldither::palette::parse_gpl("1 2 3\n", "fallback").expect("should parse");
    assert_eq!(p.name, "fallback");
    assert_eq!(p.colors, vec![[1, 2, 3]]);
    let q = pixeldither::palette::parse_gpl(
        "Name: First\n9 9 9\nName: Second\n",
        "fb",
    )
    .expect("should parse");
    assert_eq!(q.name, "Second");
    assert_eq!(q.colors, vec![[9, 9, 9]]);
}

#[test]
fn gpl_rejects_bad_rows_and_empty_files() {
    assert!(pixeldither::palette::parse_gpl("", "fb").is_none());
    assert!(pixeldither::palette::parse_gpl("# only comments\n", "fb").is_none());
    assert!(pixeldither::palette::parse_gpl("1 2 300\n", "fb").is_none());
    assert!(pixeldither::palette::parse_gpl("1 2 x\n", "fb").is_none());
    // A row with fewer than three fields is skipped, not fatal.
    let p = pixeldither::palette::parse_gpl("12 34\n5 6 7\n", "fb").expect("should parse");
    assert_eq!(p.colors, vec![[5, 6, 7]]);
}
