//! Palettes: an owned name and an ordered list of RGB triples. Built-in
//! palettes are parsed from their hex lists; lookup by name falls back to
//! the first built-in; a working palette can be augmented with black and
//! white without duplicating entries.
use vstd::prelude::*;

use crate::color::hex_byte;
use crate::color::hex_to_rgb;
use crate::color::is_hex6;
use crate::color::strip_hash;
use crate::text::all_digits;
use crate::text::chars_of;
use crate::text::dec_value;
use crate::text::is_space;
use crate::text::parse_dec_capped;
use crate::text::str_eq;
use crate::text::trim_range;
use crate::text::trimmed;

verus! {

/// A named, ordered palette. Order matters only for tie-breaking in the
/// matcher and is otherwise insertion order; an empty color list is a
/// valid but degenerate state that turns every algorithm into a no-op.
pub struct Palette {
    pub name: String,
    pub colors: Vec<[u8; 3]>,
}

/// The colors encoded by a list of hex strings, skipping entries that are
/// not six hex digits after trimming and hash-stripping.
pub open spec fn colors_of_hexes(hs: Seq<Seq<char>>, i: int) -> Seq<[u8; 3]>
    decreases hs.len() - i,
{
    if i < 0 || i >= hs.len() {
        seq![]
    } else {
        let t = strip_hash(trimmed(hs[i]));
        let rest = colors_of_hexes(hs, i + 1);
        if is_hex6(t) {
            seq![[hex_byte(t, 0) as u8, hex_byte(t, 1) as u8, hex_byte(t, 2) as u8]] + rest
        } else {
            rest
        }
    }
}

/// Build a palette from hex strings: the colors are exactly those the
/// hex list encodes, in order.
pub fn build_palette(name: &str, hexes: &Vec<&str>) -> (p: Palette)
    ensures
        p.name@ == name@,
        p.colors@ == colors_of_hexes(hexes@.map_values(|h: &str| h@), 0),
{
    let ghost views = hexes@.map_values(|h: &str| h@);
    let mut colors: Vec<[u8; 3]> = Vec::new();
    let mut i: usize = 0;
    while i < hexes.len()
        invariant
            i <= hexes@.len(),
            views == hexes@.map_values(|h: &str| h@),
            colors_of_hexes(views, 0) == colors@ + colors_of_hexes(views, i as int),
        decreases hexes@.len() - i,
    {
        let h = hexes[i];
        match hex_to_rgb(h) {
            Some(c) => {
                proof {
                    broadcast use vstd::array::axiom_array_ext_equal;

                    assert(views[i as int] == h@);
                    let t = strip_hash(trimmed(h@));
                    let cs: [u8; 3] = [
                        hex_byte(t, 0) as u8,
                        hex_byte(t, 1) as u8,
                        hex_byte(t, 2) as u8,
                    ];
                    assert(c@ =~= cs@);
                    assert(c =~= cs);
                    assert(colors@.push(c) + colors_of_hexes(views, i + 1) =~= colors@ + (seq![c]
                        + colors_of_hexes(views, i + 1)));
                }
                colors.push(c);
            },
            None => {
                proof {
                    assert(views[i as int] == h@);
                }
            },
        }
        i = i + 1;
    }
    proof {
        assert(colors@ + colors_of_hexes(views, views.len() as int) =~= colors@);
    }
    Palette { name: name.to_owned(), colors }
}

/// The hex list of the built-in palette at each index.
pub open spec fn builtin_hexes(k: int) -> Seq<Seq<char>> {
    if k == 0 {
        seq![
            "#000000"@,
            "#ffffff"@,
            "#ff0000"@,
            "#00ff00"@,
            "#0000ff"@,
            "#ffff00"@,
            "#ffa500"@,
            "#800080"@,
            "#ff69b4"@,
            "#00ffff"@,
        ]
    } else if k == 1 {
        seq!["#000000"@, "#ffffff"@]
    } else if k == 2 {
        seq![
            "#2e294e"@,
            "#541388"@,
            "#f1e9da"@,
            "#ffd400"@,
            "#d90368"@,
            "#0081a7"@,
            "#00afb9"@,
            "#fed9b7"@,
        ]
    } else if k == 3 {
        seq![
            "#0f0f23"@,
            "#262b44"@,
            "#3e4a5c"@,
            "#5a6988"@,
            "#738699"@,
            "#8ea3b0"@,
            "#a4c0c7"@,
            "#c0dddd"@,
        ]
    } else if k == 4 {
        seq![
            "#2d1b69"@,
            "#11296b"@,
            "#0f4c75"@,
            "#3282b8"@,
            "#bbe1fa"@,
            "#ff6b6b"@,
            "#ffa726"@,
            "#ffcc02"@,
        ]
    } else {
        seq![
            "#1a3a2e"@,
            "#16423c"@,
            "#0f3460"@,
            "#533a71"@,
            "#6a994e"@,
            "#a7c957"@,
            "#f2e8cf"@,
            "#bc4749"@,
        ]
    }
}

/// The name of the built-in palette at each index.
pub open spec fn builtin_name(k: int) -> Seq<char> {
    if k == 0 {
        "Flying Tiger"@
    } else if k == 1 {
        "Black & White"@
    } else if k == 2 {
        "Cozy 8"@
    } else if k == 3 {
        "Retro Gaming"@
    } else if k == 4 {
        "Sunset Vibes"@
    } else {
        "Forest Dreams"@
    }
}

/// One built-in palette.
fn builtin(k: usize, name: &str, hexes: Vec<&str>) -> (p: Palette)
    requires
        k < 6,
        name@ == builtin_name(k as int),
        hexes@.map_values(|h: &str| h@) == builtin_hexes(k as int),
    ensures
        p.name@ == builtin_name(k as int),
        p.colors@ == colors_of_hexes(builtin_hexes(k as int), 0),
{
    build_palette(name, &hexes)
}

/// The six built-in palettes, each with exactly the colors its hex list
/// encodes.
pub fn built_in_palettes() -> (r: Vec<Palette>)
    ensures
        r@.len() == 6,
        forall|k: int|
            0 <= k < 6 ==> (#[trigger] r@[k]).name@ == builtin_name(k) && r@[k].colors@
                == colors_of_hexes(builtin_hexes(k), 0),
{
    let mut r: Vec<Palette> = Vec::new();
    let mut h0: Vec<&str> = Vec::new();
    h0.push("#000000");
    h0.push("#ffffff");
    h0.push("#ff0000");
    h0.push("#00ff00");
    h0.push("#0000ff");
    h0.push("#ffff00");
    h0.push("#ffa500");
    h0.push("#800080");
    h0.push("#ff69b4");
    h0.push("#00ffff");
    proof {
        assert(h0@.map_values(|h: &str| h@) =~= builtin_hexes(0));
    }
    r.push(builtin(0, "Flying Tiger", h0));
    let mut h1: Vec<&str> = Vec::new();
    h1.push("#000000");
    h1.push("#ffffff");
    proof {
        assert(h1@.map_values(|h: &str| h@) =~= builtin_hexes(1));
    }
    r.push(builtin(1, "Black & White", h1));
    let mut h2: Vec<&str> = Vec::new();
    h2.push("#2e294e");
    h2.push("#541388");
    h2.push("#f1e9da");
    h2.push("#ffd400");
    h2.push("#d90368");
    h2.push("#0081a7");
    h2.push("#00afb9");
    h2.push("#fed9b7");
    proof {
        assert(h2@.map_values(|h: &str| h@) =~= builtin_hexes(2));
    }
    r.push(builtin(2, "Cozy 8", h2));
    let mut h3: Vec<&str> = Vec::new();
    h3.push("#0f0f23");
    h3.push("#262b44");
    h3.push("#3e4a5c");
    h3.push("#5a6988");
    h3.push("#738699");
    h3.push("#8ea3b0");
    h3.push("#a4c0c7");
    h3.push("#c0dddd");
    proof {
        assert(h3@.map_values(|h: &str| h@) =~= builtin_hexes(3));
    }
    r.push(builtin(3, "Retro Gaming", h3));
    let mut h4: Vec<&str> = Vec::new();
    h4.push("#2d1b69");
    h4.push("#11296b");
    h4.push("#0f4c75");
    h4.push("#3282b8");
    h4.push("#bbe1fa");
    h4.push("#ff6b6b");
    h4.push("#ffa726");
    h4.push("#ffcc02");
    proof {
        assert(h4@.map_values(|h: &str| h@) =~= builtin_hexes(4));
    }
    r.push(builtin(4, "Sunset Vibes", h4));
    let mut h5: Vec<&str> = Vec::new();
    h5.push("#1a3a2e");
    h5.push("#16423c");
    h5.push("#0f3460");
    h5.push("#533a71");
    h5.push("#6a994e");
    h5.push("#a7c957");
    h5.push("#f2e8cf");
    h5.push("#bc4749");
    proof {
        assert(h5@.map_values(|h: &str| h@) =~= builtin_hexes(5));
    }
    r.push(builtin(5, "Forest Dreams", h5));
    r
}

/// The index of the built-in palette a name selects: the matching entry,
/// else the first.
pub open spec fn builtin_pick(nm: Seq<char>) -> int {
    if nm == builtin_name(0) {
        0
    } else if nm == builtin_name(1) {
        1
    } else if nm == builtin_name(2) {
        2
    } else if nm == builtin_name(3) {
        3
    } else if nm == builtin_name(4) {
        4
    } else if nm == builtin_name(5) {
        5
    } else {
        0
    }
}

/// The built-in palette with the given name, or the first built-in when
/// no name matches.
pub fn get_palette_by_name(name: &str) -> (p: Palette)
    ensures
        p.name@ == builtin_name(builtin_pick(name@)),
        p.colors@ == colors_of_hexes(builtin_hexes(builtin_pick(name@)), 0),
{
    let mut pals = built_in_palettes();
    let idx: usize = if str_eq(name, "Flying Tiger") {
        0
    } else if str_eq(name, "Black & White") {
        1
    } else if str_eq(name, "Cozy 8") {
        2
    } else if str_eq(name, "Retro Gaming") {
        3
    } else if str_eq(name, "Sunset Vibes") {
        4
    } else if str_eq(name, "Forest Dreams") {
        5
    } else {
        0
    };
    pals.remove(idx)
}

/// Some entry of the list holds exactly these channel values.
pub open spec fn has_color(s: Seq<[u8; 3]>, c: Seq<u8>) -> bool {
    exists|i: int| 0 <= i < s.len() && (#[trigger] s[i])@ == c
}

/// The working palette after the optional black and white augmentations:
/// each is appended only when requested and not already present.
pub open spec fn maybe_modify_spec(s: Seq<[u8; 3]>, add_black: bool, add_white: bool) -> Seq<
    [u8; 3],
> {
    let s1 = if add_black && !has_color(s, seq![0u8, 0u8, 0u8]) {
        s.push([0u8, 0u8, 0u8])
    } else {
        s
    };
    if add_white && !has_color(s1, seq![255u8, 255u8, 255u8]) {
        s1.push([255u8, 255u8, 255u8])
    } else {
        s1
    }
}

/// Whether the palette holds the exact color (r, g, b).
fn contains_color(v: &Vec<[u8; 3]>, r: u8, g: u8, b: u8) -> (found: bool)
    ensures
        found == has_color(v@, seq![r, g, b]),
{
    let mut i: usize = 0;
    while i < v.len()
        invariant
            i <= v@.len(),
            forall|k: int| 0 <= k < i ==> (#[trigger] v@[k])@ !~= seq![r, g, b],
        decreases v@.len() - i,
    {
        let c = v[i];
        if c[0] == r && c[1] == g && c[2] == b {
            proof {
                assert(c@ =~= seq![r, g, b]);
            }
            return true;
        }
        proof {
            assert(c@ !~= seq![r, g, b]);
        }
        i = i + 1;
    }
    false
}

/// Augment a working palette with black and/or white, without
/// duplicating an entry that is already present; the original entries
/// and their order are kept.
pub fn maybe_modify_palette(colors: &mut Vec<[u8; 3]>, add_black: bool, add_white: bool)
    ensures
        final(colors)@ == maybe_modify_spec(old(colors)@, add_black, add_white),
{
    if add_black {
        if !contains_color(colors, 0, 0, 0) {
            colors.push([0, 0, 0]);
        }
    }
    if add_white {
        if !contains_color(colors, 255, 255, 255) {
            colors.push([255, 255, 255]);
        }
    }
}

/// The index of the first axis separator ('x' or 'X') at or after `i`,
/// or the length when there is none.
pub open spec fn xsep_pos(s: Seq<char>, i: int) -> int
    decreases s.len() - i,
{
    if i < 0 || i >= s.len() {
        s.len() as int
    } else if s[i] == 'x' || s[i] == 'X' {
        i
    } else {
        xsep_pos(s, i + 1)
    }
}

proof fn lemma_xsep_skip(s: Seq<char>, q: int)
    requires
        0 <= q <= s.len(),
        forall|m: int| 0 <= m < q ==> s[m] != 'x' && s[m] != 'X',
    ensures
        xsep_pos(s, 0) == xsep_pos(s, q),
    decreases q,
{
    if q > 0 {
        lemma_xsep_skip_step(s, 0, q);
    }
}

proof fn lemma_xsep_skip_step(s: Seq<char>, i: int, q: int)
    requires
        0 <= i <= q <= s.len(),
        forall|m: int| 0 <= m < q ==> s[m] != 'x' && s[m] != 'X',
    ensures
        xsep_pos(s, i) == xsep_pos(s, q),
    decreases q - i,
{
    if i < q {
        lemma_xsep_skip_step(s, i + 1, q);
    }
}

/// A whole decimal number that fits in 32 bits.
pub open spec fn parse_u32_spec(s: Seq<char>) -> Option<int> {
    if all_digits(s) && dec_value(s) <= 4294967295 {
        Some(dec_value(s))
    } else {
        None
    }
}

/// At least one.
pub open spec fn at_least_one(v: int) -> int {
    if v < 1 {
        1
    } else {
        v
    }
}

/// The grid size a request string selects: "WxH" with both sides decimal
/// (either case of the separator, surrounding whitespace ignored), or a
/// single number used for both axes; each side is raised to at least one.
pub open spec fn grid_spec(s: Seq<char>) -> Option<(int, int)> {
    let t = trimmed(s);
    let p = xsep_pos(t, 0);
    if p < t.len() {
        let a = parse_u32_spec(trimmed(t.subrange(0, p)));
        let b = parse_u32_spec(trimmed(t.subrange(p + 1, t.len() as int)));
        if a is Some && b is Some {
            Some((at_least_one(a->0), at_least_one(b->0)))
        } else {
            None
        }
    } else {
        match parse_u32_spec(t) {
            Some(v) => Some((at_least_one(v), at_least_one(v))),
            None => None,
        }
    }
}

/// Parse a grid request string; returns exactly `grid_spec` of it.
pub fn parse_grid_value(value: &str) -> (r: Option<(u32, u32)>)
    ensures
        ({
            match (r, grid_spec(value@)) {
                (Some(p), Some(q)) => p.0 == q.0 && p.1 == q.1,
                (None, None) => true,
                _ => false,
            }
        }),
{
    let cv = chars_of(value);
    proof {
        assert(cv@.subrange(0, cv@.len() as int) =~= value@);
    }
    let n = cv.len();
    let (ti, tj) = trim_range(&cv, 0, n);
    let ghost t = trimmed(value@);
    let mut k: usize = ti;
    while k < tj && cv[k] != 'x' && cv[k] != 'X'
        invariant
            ti <= k <= tj <= cv@.len(),
            t == cv@.subrange(ti as int, tj as int),
            forall|m: int| ti <= m < k ==> cv@[m] != 'x' && cv@[m] != 'X',
        decreases tj - k,
    {
        k = k + 1;
    }
    proof {
        assert(forall|m: int| 0 <= m < k - ti ==> t[m] != 'x' && t[m] != 'X');
        lemma_xsep_skip(t, k - ti);
        if k < tj {
            assert(t[k - ti] == cv@[k as int]);
        }
    }
    if k < tj {
        let (ai, aj) = trim_range(&cv, ti, k);
        let (bi, bj) = trim_range(&cv, k + 1, tj);
        proof {
            assert(cv@.subrange(ti as int, k as int) =~= t.subrange(0, k - ti));
            assert(cv@.subrange(k + 1, tj as int) =~= t.subrange(k - ti + 1, t.len() as int));
        }
        let va = parse_dec_capped(&cv, ai, aj, 4294967295);
        let vb = parse_dec_capped(&cv, bi, bj, 4294967295);
        match (va, vb) {
            (Some(a), Some(b)) => {
                let aa = if a < 1 {
                    1u64
                } else {
                    a
                };
                let bb = if b < 1 {
                    1u64
                } else {
                    b
                };
                Some((aa as u32, bb as u32))
            },
            _ => None,
        }
    } else {
        let v = parse_dec_capped(&cv, ti, tj, 4294967295);
        match v {
            Some(a) => {
                let aa = if a < 1 {
                    1u64
                } else {
                    a
                };
                Some((aa as u32, aa as u32))
            },
            None => None,
        }
    }
}

/// The grid size a request resolves to: the parsed grid string when it
/// parses, else the explicit width and height, each at least one.
pub fn resolve_grid(grid_value: &Option<String>, grid_width: u32, grid_height: u32) -> (r: (
    u32,
    u32,
))
    ensures
        ({
            match grid_value {
                Some(s) => match grid_spec(s@) {
                    Some(q) => r.0 == q.0 && r.1 == q.1,
                    None => r.0 == at_least_one(grid_width as int) && r.1 == at_least_one(
                        grid_height as int,
                    ),
                },
                None => r.0 == at_least_one(grid_width as int) && r.1 == at_least_one(
                    grid_height as int,
                ),
            }
        }),
{
    match grid_value {
        Some(s) => {
            match parse_grid_value(s.as_str()) {
                Some(p) => p,
                None => (
                    if grid_width < 1 {
                        1
                    } else {
                        grid_width
                    },
                    if grid_height < 1 {
                        1
                    } else {
                        grid_height
                    },
                ),
            }
        },
        None => (
            if grid_width < 1 {
                1
            } else {
                grid_width
            },
            if grid_height < 1 {
                1
            } else {
                grid_height
            },
        ),
    }
}


/// One classified line of a GPL palette file.
pub enum GplLine {
    /// A name declaration; the payload is the declared name.
    Name(Seq<char>),
    /// A comment, header, blank or short line, contributing nothing.
    Skip,
    /// A color row; the payload is the three parsed channel bytes.
    Color([u8; 3]),
    /// A row with three or more fields whose first three are not all
    /// byte-valued numbers: it aborts the whole parse.
    Bad,
}

/// The line without its leading byte-order marks.
pub open spec fn strip_bom(s: Seq<char>) -> Seq<char>
    decreases s.len(),
{
    if s.len() > 0 && s[0] == '\u{feff}' {
        strip_bom(s.subrange(1, s.len() as int))
    } else {
        s
    }
}

/// If everything before `i` is a byte-order mark and position `i` is not
/// (or is the end), stripping marks yields the suffix from `i`.
pub proof fn lemma_strip_bom_at(s: Seq<char>, i: int)
    requires
        0 <= i <= s.len(),
        forall|k: int| 0 <= k < i ==> s[k] == '\u{feff}',
        i == s.len() || s[i] != '\u{feff}',
    ensures
        strip_bom(s) == s.subrange(i, s.len() as int),
    decreases i,
{
    if i == 0 {
        assert(s.subrange(0, s.len() as int) =~= s);
    } else {
        let s1 = s.subrange(1, s.len() as int);
        lemma_strip_bom_at(s1, i - 1);
        assert(s1.subrange(i - 1, s1.len() as int) =~= s.subrange(i, s.len() as int));
    }
}

/// The index of the first newline at or after `i`, or the length.
pub open spec fn line_end(s: Seq<char>, i: int) -> int
    decreases s.len() - i,
{
    if i < 0 || i >= s.len() {
        s.len() as int
    } else if s[i] == '\n' {
        i
    } else {
        line_end(s, i + 1)
    }
}

proof fn lemma_line_end_skip(s: Seq<char>, i: int, q: int)
    requires
        0 <= i <= q <= s.len(),
        forall|m: int| i <= m < q ==> s[m] != '\n',
    ensures
        line_end(s, i) == line_end(s, q),
    decreases q - i,
{
    if i < q {
        lemma_line_end_skip(s, i + 1, q);
    }
}

proof fn lemma_line_end_range(s: Seq<char>, i: int)
    requires
        0 <= i <= s.len(),
    ensures
        i <= line_end(s, i) <= s.len(),
    decreases s.len() - i,
{
    if i < s.len() && s[i] != '\n' {
        lemma_line_end_range(s, i + 1);
    }
}

/// The index of the first non-whitespace character at or after `i`.
pub open spec fn tok_start(s: Seq<char>, i: int) -> int
    decreases s.len() - i,
{
    if i < 0 || i >= s.len() {
        s.len() as int
    } else if !crate::text::is_space_char(s[i]) {
        i
    } else {
        tok_start(s, i + 1)
    }
}

/// The index of the first whitespace character at or after `i`.
pub open spec fn tok_end(s: Seq<char>, i: int) -> int
    decreases s.len() - i,
{
    if i < 0 || i >= s.len() {
        s.len() as int
    } else if crate::text::is_space_char(s[i]) {
        i
    } else {
        tok_end(s, i + 1)
    }
}

proof fn lemma_tok_start_skip(s: Seq<char>, i: int, q: int)
    requires
        0 <= i <= q <= s.len(),
        forall|m: int| i <= m < q ==> crate::text::is_space_char(#[trigger] s[m]),
    ensures
        tok_start(s, i) == tok_start(s, q),
    decreases q - i,
{
    if i < q {
        lemma_tok_start_skip(s, i + 1, q);
    }
}

proof fn lemma_tok_end_skip(s: Seq<char>, i: int, q: int)
    requires
        0 <= i <= q <= s.len(),
        forall|m: int| i <= m < q ==> !crate::text::is_space_char(#[trigger] s[m]),
    ensures
        tok_end(s, i) == tok_end(s, q),
    decreases q - i,
{
    if i < q {
        lemma_tok_end_skip(s, i + 1, q);
    }
}

/// The sequence opens with the given prefix.
pub open spec fn starts_with(s: Seq<char>, p: Seq<char>) -> bool {
    s.len() >= p.len() && s.subrange(0, p.len() as int) == p
}

/// A token that is a whole decimal number fitting in a byte.
pub open spec fn token_u8(t: Seq<char>) -> Option<int> {
    if all_digits(t) && dec_value(t) <= 255 {
        Some(dec_value(t))
    } else {
        None
    }
}

/// The name a cleaned line declares, if it is a name line: the trimmed
/// remainder after "Palette Name:" or "Name:", with or without a leading
/// hash mark.
pub open spec fn name_of_line(l: Seq<char>) -> Option<Seq<char>> {
    if l.len() > 0 && l[0] == '#' {
        let u = trimmed(l.subrange(1, l.len() as int));
        if starts_with(u, "Palette Name:"@) {
            Some(trimmed(u.subrange(13, u.len() as int)))
        } else if starts_with(u, "Name:"@) {
            Some(trimmed(u.subrange(5, u.len() as int)))
        } else {
            None
        }
    } else if starts_with(l, "Palette Name:"@) {
        Some(trimmed(l.subrange(13, l.len() as int)))
    } else if starts_with(l, "Name:"@) {
        Some(trimmed(l.subrange(5, l.len() as int)))
    } else {
        None
    }
}

/// The color row reading of a cleaned line that is neither a name line
/// nor skipped outright.
pub open spec fn color_of_line(l: Seq<char>) -> GplLine {
    let t1s = tok_start(l, 0);
    let t1e = tok_end(l, t1s);
    let t2s = tok_start(l, t1e);
    let t2e = tok_end(l, t2s);
    let t3s = tok_start(l, t2e);
    let t3e = tok_end(l, t3s);
    if t3s >= l.len() {
        GplLine::Skip
    } else {
        let a = token_u8(l.subrange(t1s, t1e));
        let b = token_u8(l.subrange(t2s, t2e));
        let c = token_u8(l.subrange(t3s, t3e));
        if a is Some && b is Some && c is Some {
            GplLine::Color([a->0 as u8, b->0 as u8, c->0 as u8])
        } else {
            GplLine::Bad
        }
    }
}

/// How one raw line contributes to a GPL parse, after byte-order-mark
/// stripping and trimming: a name declaration, a skipped line, a color
/// row, or an abort.
pub open spec fn classify_line(raw: Seq<char>) -> GplLine {
    let l = trimmed(strip_bom(raw));
    match name_of_line(l) {
        Some(nm) => GplLine::Name(nm),
        None => {
            if l.len() == 0 || l[0] == '#' || starts_with(l, "GIMP Palette"@) {
                GplLine::Skip
            } else {
                color_of_line(l)
            }
        },
    }
}

/// The scan state over the whole file from position `i`: the last name
/// declared and the colors gathered so far, or nothing once a bad color
/// row was seen.
pub open spec fn gpl_scan(
    s: Seq<char>,
    i: int,
    name: Option<Seq<char>>,
    cols: Seq<[u8; 3]>,
) -> Option<(Option<Seq<char>>, Seq<[u8; 3]>)>
    decreases s.len() - i,
{
    if i >= s.len() || i < 0 {
        Some((name, cols))
    } else {
        let e = line_end(s, i);
        let nxt = if e + 1 <= i {
            i + 1
        } else if e + 1 > s.len() {
            s.len() as int
        } else {
            e + 1
        };
        match classify_line(s.subrange(i, e)) {
            GplLine::Name(nm) => gpl_scan(s, nxt, Some(nm), cols),
            GplLine::Skip => gpl_scan(s, nxt, name, cols),
            GplLine::Color(c) => gpl_scan(s, nxt, name, cols.push(c)),
            GplLine::Bad => None,
        }
    }
}

/// What a GPL file parses to: its colors in order and its declared name
/// (the fallback when none is declared); nothing when a color row is
/// malformed or no color was found.
pub open spec fn gpl_spec(s: Seq<char>, fallback: Seq<char>) -> Option<(Seq<char>, Seq<[u8; 3]>)> {
    match gpl_scan(s, 0, None, seq![]) {
        None => None,
        Some((nm, cols)) => {
            if cols.len() == 0 {
                None
            } else {
                Some(
                    (
                        match nm {
                            Some(n) => n,
                            None => fallback,
                        },
                        cols,
                    ),
                )
            }
        },
    }
}


/// Whether the range [lo, hi) of `chars` opens with the pattern.
fn starts_with_range(chars: &Vec<char>, lo: usize, hi: usize, pat: &str) -> (b: bool)
    requires
        lo <= hi <= chars@.len(),
    ensures
        b == starts_with(chars@.subrange(lo as int, hi as int), pat@),
{
    let ghost t = chars@.subrange(lo as int, hi as int);
    let pl = pat.unicode_len();
    if hi - lo < pl {
        return false;
    }
    let mut k: usize = 0;
    while k < pl
        invariant
            k <= pl,
            pl == pat@.len(),
            lo + pl <= hi <= chars@.len(),
            t == chars@.subrange(lo as int, hi as int),
            forall|m: int| 0 <= m < k ==> t[m] == pat@[m],
        decreases pl - k,
    {
        if chars[lo + k] != pat.get_char(k) {
            proof {
                assert(t[k as int] != pat@[k as int]);
                assert(t.subrange(0, pl as int)[k as int] != pat@[k as int]);
            }
            return false;
        }
        proof {
            assert(t[k as int] == chars@[lo + k]);
        }
        k = k + 1;
    }
    proof {
        assert(t.subrange(0, pl as int) =~= pat@);
    }
    true
}

/// The first non-whitespace position in [lo, hi) at or after `from`,
/// as an index into `chars`; `hi` when there is none.
fn find_tok_start(chars: &Vec<char>, lo: usize, hi: usize, from: usize) -> (r: usize)
    requires
        lo <= from <= hi <= chars@.len(),
    ensures
        from <= r <= hi,
        r as int - lo == tok_start(chars@.subrange(lo as int, hi as int), from - lo),
{
    let ghost t = chars@.subrange(lo as int, hi as int);
    let mut k: usize = from;
    while k < hi && is_space(chars[k])
        invariant
            from <= k <= hi,
            t == chars@.subrange(lo as int, hi as int),
            lo <= from,
            hi <= chars@.len(),
            forall|m: int|
                from - lo <= m < k - lo ==> crate::text::is_space_char(#[trigger] t[m]),
        decreases hi - k,
    {
        k = k + 1;
    }
    proof {
        lemma_tok_start_skip_range(t, from - lo, k - lo);
        if k < hi {
            assert(t[k - lo] == chars@[k as int]);
        }
    }
    k
}

/// The first whitespace position in [lo, hi) at or after `from`, as an
/// index into `chars`; `hi` when there is none.
fn find_tok_end(chars: &Vec<char>, lo: usize, hi: usize, from: usize) -> (r: usize)
    requires
        lo <= from <= hi <= chars@.len(),
    ensures
        from <= r <= hi,
        r as int - lo == tok_end(chars@.subrange(lo as int, hi as int), from - lo),
{
    let ghost t = chars@.subrange(lo as int, hi as int);
    let mut k: usize = from;
    while k < hi && !is_space(chars[k])
        invariant
            from <= k <= hi,
            t == chars@.subrange(lo as int, hi as int),
            lo <= from,
            hi <= chars@.len(),
            forall|m: int|
                from - lo <= m < k - lo ==> !crate::text::is_space_char(#[trigger] t[m]),
        decreases hi - k,
    {
        k = k + 1;
    }
    proof {
        lemma_tok_end_skip_range(t, from - lo, k - lo);
        if k < hi {
            assert(t[k - lo] == chars@[k as int]);
        }
    }
    k
}

proof fn lemma_tok_start_skip_range(s: Seq<char>, i: int, q: int)
    requires
        0 <= i <= q <= s.len(),
        forall|m: int| i <= m < q ==> crate::text::is_space_char(#[trigger] s[m]),
    ensures
        tok_start(s, i) == tok_start(s, q),
    decreases q - i,
{
    if i < q {
        lemma_tok_start_skip_range(s, i + 1, q);
    }
}

proof fn lemma_tok_end_skip_range(s: Seq<char>, i: int, q: int)
    requires
        0 <= i <= q <= s.len(),
        forall|m: int| i <= m < q ==> !crate::text::is_space_char(#[trigger] s[m]),
    ensures
        tok_end(s, i) == tok_end(s, q),
    decreases q - i,
{
    if i < q {
        lemma_tok_end_skip_range(s, i + 1, q);
    }
}

/// Parse the GIMP palette (GPL) format: the colors of every well-formed
/// R G B row, named by the last name declaration or by the fallback.
/// Nothing comes back when a row with three or more fields has a
/// non-byte value among its first three, or when no color row exists.
#[verifier::rlimit(100)]
pub fn parse_gpl(contents: &str, fallback_name: &str) -> (r: Option<Palette>)
    ensures
        ({
            match (r, gpl_spec(contents@, fallback_name@)) {
                (Some(p), Some(q)) => p.name@ == q.0 && p.colors@ == q.1,
                (None, None) => true,
                _ => false,
            }
        }),
{
    let cv = chars_of(contents);
    proof {
        assert(cv@.subrange(0, cv@.len() as int) =~= contents@);
        reveal_strlit("Palette Name:");
        reveal_strlit("Name:");
        reveal_strlit("GIMP Palette");
    }
    let n = cv.len();
    let mut pos: usize = 0;
    let mut colors: Vec<[u8; 3]> = Vec::new();
    let mut name_rng: Option<(usize, usize)> = None;
    while pos < n
        invariant
            pos <= n,
            n == cv@.len(),
            cv@ == contents@,
            ({
                let gname = match name_rng {
                    Some(p) => Some(cv@.subrange(p.0 as int, p.1 as int)),
                    None => None,
                };
                &&& gpl_scan(cv@, 0, Option::<Seq<char>>::None, seq![]) == gpl_scan(
                    cv@,
                    pos as int,
                    gname,
                    colors@,
                )
                &&& (name_rng matches Some(p) ==> p.0 <= p.1 <= n)
            }),
        decreases n - pos,
    {
        proof {
            reveal_strlit("Palette Name:");
            reveal_strlit("Name:");
            reveal_strlit("GIMP Palette");
        }
        let ghost gname_in = match name_rng {
            Some(p) => Some(cv@.subrange(p.0 as int, p.1 as int)),
            None => None,
        };
        // Find the end of the current line.
        let mut e: usize = pos;
        while e < n && cv[e] != '\n'
            invariant
                pos <= e <= n,
                n == cv@.len(),
                forall|m: int| pos <= m < e ==> cv@[m] != '\n',
            decreases n - e,
        {
            e = e + 1;
        }
        proof {
            lemma_line_end_skip(cv@, pos as int, e as int);
            assert(line_end(cv@, pos as int) == e);
        }
        let ghost raw = cv@.subrange(pos as int, e as int);
        // Strip leading byte-order marks, then trim.
        let mut b: usize = pos;
        while b < e && cv[b] == '\u{feff}'
            invariant
                pos <= b <= e <= n,
                n == cv@.len(),
                forall|m: int| pos <= m < b ==> cv@[m] == '\u{feff}',
            decreases e - b,
        {
            b = b + 1;
        }
        proof {
            assert(forall|m: int| 0 <= m < b - pos ==> raw[m] == '\u{feff}');
            if b < e {
                assert(raw[b - pos] == cv@[b as int]);
            }
            lemma_strip_bom_at(raw, b - pos);
            assert(raw.subrange(b - pos, raw.len() as int) =~= cv@.subrange(b as int, e as int));
        }
        let (li, lj) = trim_range(&cv, b, e);
        let ghost l = trimmed(strip_bom(raw));
        proof {
            assert(l == cv@.subrange(li as int, lj as int));
        }
        // Classify the line, mirroring `classify_line`.
        let mut bad = false;
        if lj > li && cv[li] == '#' {
            let (ui, uj) = trim_range(&cv, li + 1, lj);
            let ghost u = trimmed(l.subrange(1, l.len() as int));
            proof {
                assert(cv@.subrange(li + 1, lj as int) =~= l.subrange(1, l.len() as int));
                assert(u == cv@.subrange(ui as int, uj as int));
            }
            if starts_with_range(&cv, ui, uj, "Palette Name:") {
                proof {
                    assert("Palette Name:"@.len() == 13);
                    assert(uj - ui >= 13);
                }
                let (ns, ne) = trim_range(&cv, ui + 13, uj);
                proof {
                    assert(cv@.subrange(ui + 13, uj as int) =~= u.subrange(13, u.len() as int));
                }
                name_rng = Some((ns, ne));
            } else if starts_with_range(&cv, ui, uj, "Name:") {
                proof {
                    assert("Name:"@.len() == 5);
                    assert(uj - ui >= 5);
                }
                let (ns, ne) = trim_range(&cv, ui + 5, uj);
                proof {
                    assert(cv@.subrange(ui + 5, uj as int) =~= u.subrange(5, u.len() as int));
                }
                name_rng = Some((ns, ne));
            }
            // Any other hash-prefixed line is a comment.
        } else if starts_with_range(&cv, li, lj, "Palette Name:") {
            proof {
                assert("Palette Name:"@.len() == 13);
                assert(lj - li >= 13);
            }
            let (ns, ne) = trim_range(&cv, li + 13, lj);
            proof {
                assert(cv@.subrange(li + 13, lj as int) =~= l.subrange(13, l.len() as int));
            }
            name_rng = Some((ns, ne));
        } else if starts_with_range(&cv, li, lj, "Name:") {
            proof {
                assert("Name:"@.len() == 5);
                assert(lj - li >= 5);
            }
            let (ns, ne) = trim_range(&cv, li + 5, lj);
            proof {
                assert(cv@.subrange(li + 5, lj as int) =~= l.subrange(5, l.len() as int));
            }
            name_rng = Some((ns, ne));
        } else if lj == li || starts_with_range(&cv, li, lj, "GIMP Palette") {
            // Blank line or header: nothing to do.
        } else {
            let t1s = find_tok_start(&cv, li, lj, li);
            let t1e = find_tok_end(&cv, li, lj, t1s);
            let t2s = find_tok_start(&cv, li, lj, t1e);
            let t2e = find_tok_end(&cv, li, lj, t2s);
            let t3s = find_tok_start(&cv, li, lj, t2e);
            let t3e = find_tok_end(&cv, li, lj, t3s);
            if t3s < lj {
                let va = parse_dec_capped(&cv, t1s, t1e, 255);
                let vb = parse_dec_capped(&cv, t2s, t2e, 255);
                let vc = parse_dec_capped(&cv, t3s, t3e, 255);
                proof {
                    assert(cv@.subrange(t1s as int, t1e as int) =~= l.subrange(
                        t1s - li,
                        t1e - li,
                    ));
                    assert(cv@.subrange(t2s as int, t2e as int) =~= l.subrange(
                        t2s - li,
                        t2e - li,
                    ));
                    assert(cv@.subrange(t3s as int, t3e as int) =~= l.subrange(
                        t3s - li,
                        t3e - li,
                    ));
                }
                match (va, vb, vc) {
                    (Some(a), Some(bb), Some(c)) => {
                        let entry: [u8; 3] = [a as u8, bb as u8, c as u8];
                        proof {
                            broadcast use vstd::array::axiom_array_ext_equal;

                            let spec_entry = color_of_line(l);
                            assert(spec_entry matches GplLine::Color(sc) ==> entry =~= sc);
                        }
                        colors.push(entry);
                    },
                    _ => {
                        bad = true;
                    },
                }
            }
            // Fewer than three fields: the line contributes nothing.
        }
        if bad {
            proof {
                assert(classify_line(raw) is Bad);
                assert(gpl_scan(cv@, pos as int, gname_in, colors@) is None);
            }
            return None;
        }
        pos = if e < n {
            e + 1
        } else {
            n
        };
    }
    proof {
        assert(gpl_scan(cv@, n as int, match name_rng {
            Some(p) => Some(cv@.subrange(p.0 as int, p.1 as int)),
            None => None,
        }, colors@) == Some(
            (
                match name_rng {
                    Some(p) => Some(cv@.subrange(p.0 as int, p.1 as int)),
                    None => None,
                },
                colors@,
            ),
        ));
    }
    if colors.len() == 0 {
        return None;
    }
    let name: String = match name_rng {
        Some((ns, ne)) => contents.substring_char(ns, ne).to_owned(),
        None => fallback_name.to_owned(),
    };
    Some(Palette { name, colors })
}

} // verus!
