//! Character-level text primitives for the palette and grid parsers:
//! ASCII whitespace trimming, decimal and hexadecimal digit values, and
//! plain string equality, each exec function pinned to a spec over
//! character sequences.
use vstd::prelude::*;

verus! {

/// ASCII whitespace, as the parsers treat it.
pub open spec fn is_space_char(c: char) -> bool {
    c == ' ' || c == '\t' || c == '\n' || c == '\r' || c == '\u{c}'
}

/// The sequence without its leading whitespace run.
pub open spec fn drop_leading_ws(s: Seq<char>) -> Seq<char>
    decreases s.len(),
{
    if s.len() > 0 && is_space_char(s[0]) {
        drop_leading_ws(s.subrange(1, s.len() as int))
    } else {
        s
    }
}

/// The sequence without its trailing whitespace run.
pub open spec fn drop_trailing_ws(s: Seq<char>) -> Seq<char>
    decreases s.len(),
{
    if s.len() > 0 && is_space_char(s[s.len() - 1]) {
        drop_trailing_ws(s.subrange(0, s.len() - 1))
    } else {
        s
    }
}

/// The sequence without leading and trailing whitespace.
pub open spec fn trimmed(s: Seq<char>) -> Seq<char> {
    drop_trailing_ws(drop_leading_ws(s))
}

/// If everything before `i` is whitespace and position `i` is not (or is
/// the end), dropping leading whitespace yields the suffix from `i`.
pub proof fn lemma_drop_leading_ws_at(s: Seq<char>, i: int)
    requires
        0 <= i <= s.len(),
        forall|k: int| 0 <= k < i ==> is_space_char(s[k]),
        i == s.len() || !is_space_char(s[i]),
    ensures
        drop_leading_ws(s) == s.subrange(i, s.len() as int),
    decreases i,
{
    if i == 0 {
        assert(s.subrange(0, s.len() as int) =~= s);
    } else {
        let s1 = s.subrange(1, s.len() as int);
        lemma_drop_leading_ws_at(s1, i - 1);
        assert(s1.subrange(i - 1, s1.len() as int) =~= s.subrange(i, s.len() as int));
    }
}

/// If everything from `j` on is whitespace and position `j - 1` is not
/// (or `j` is zero), dropping trailing whitespace yields the prefix up to
/// `j`.
pub proof fn lemma_drop_trailing_ws_at(s: Seq<char>, j: int)
    requires
        0 <= j <= s.len(),
        forall|k: int| j <= k < s.len() ==> is_space_char(s[k]),
        j == 0 || !is_space_char(s[j - 1]),
    ensures
        drop_trailing_ws(s) == s.subrange(0, j),
    decreases s.len() - j,
{
    if j == s.len() {
        assert(s.subrange(0, s.len() as int) =~= s);
    } else {
        let s1 = s.subrange(0, s.len() - 1);
        lemma_drop_trailing_ws_at(s1, j);
        assert(s1.subrange(0, j) =~= s.subrange(0, j));
    }
}

/// The value of a decimal digit, or 10 for any other character.
pub open spec fn digit_val(c: char) -> int {
    match c {
        '0' => 0,
        '1' => 1,
        '2' => 2,
        '3' => 3,
        '4' => 4,
        '5' => 5,
        '6' => 6,
        '7' => 7,
        '8' => 8,
        '9' => 9,
        _ => 10,
    }
}

/// The value of a hexadecimal digit (either case), or 16 for any other
/// character.
pub open spec fn hex_val(c: char) -> int {
    match c {
        'a' | 'A' => 10,
        'b' | 'B' => 11,
        'c' | 'C' => 12,
        'd' | 'D' => 13,
        'e' | 'E' => 14,
        'f' | 'F' => 15,
        _ => if digit_val(c) < 10 {
            digit_val(c)
        } else {
            16
        },
    }
}

/// Every character of the sequence is a decimal digit, and there is at
/// least one.
pub open spec fn all_digits(s: Seq<char>) -> bool {
    s.len() > 0 && forall|k: int| 0 <= k < s.len() ==> digit_val(#[trigger] s[k]) < 10
}

/// The value of the decimal prefix of length `n`.
pub open spec fn dec_value_prefix(s: Seq<char>, n: int) -> int
    decreases n,
{
    if n <= 0 {
        0
    } else {
        dec_value_prefix(s, n - 1) * 10 + digit_val(s[n - 1])
    }
}

/// The value of a digit sequence.
pub open spec fn dec_value(s: Seq<char>) -> int {
    dec_value_prefix(s, s.len() as int)
}

/// Parse a digit range of `chars` as a decimal number, reporting whether
/// the range is all digits with a value at most `cap`; the accumulator
/// saturates just above `cap`, so overflowing values are rejected exactly.
pub fn parse_dec_capped(chars: &Vec<char>, lo: usize, hi: usize, cap: u64) -> (r: Option<u64>)
    requires
        lo <= hi <= chars@.len(),
        cap <= 4294967295,
    ensures
        ({
            let t = chars@.subrange(lo as int, hi as int);
            match r {
                Some(v) => all_digits(t) && dec_value(t) == v && v <= cap,
                None => !(all_digits(t) && dec_value(t) <= cap),
            }
        }),
{
    let ghost t = chars@.subrange(lo as int, hi as int);
    if lo == hi {
        return None;
    }
    let mut acc: u64 = 0;
    let mut i: usize = lo;
    while i < hi
        invariant
            lo <= i <= hi <= chars@.len(),
            t == chars@.subrange(lo as int, hi as int),
            cap <= 4294967295,
            forall|k: int| 0 <= k < i - lo ==> digit_val(#[trigger] t[k]) < 10,
            acc <= cap + 1,
            dec_value_prefix(t, i - lo) <= cap ==> acc == dec_value_prefix(t, i - lo),
            dec_value_prefix(t, i - lo) > cap ==> acc == cap + 1,
            dec_value_prefix(t, i - lo) >= 0,
        decreases hi - i,
    {
        let c = chars[i];
        proof {
            assert(t[i - lo] == chars@[i as int]);
        }
        let d: u64 = match c {
            '0' => 0,
            '1' => 1,
            '2' => 2,
            '3' => 3,
            '4' => 4,
            '5' => 5,
            '6' => 6,
            '7' => 7,
            '8' => 8,
            '9' => 9,
            _ => 10,
        };
        if d >= 10 {
            return None;
        }
        proof {
            lemma_dec_value_prefix_mono_all(t, i + 1 - lo);
        }
        if acc > cap / 10 {
            acc = cap + 1;
            proof {
                lemma_cap_exceeded(t, i - lo, cap as int);
            }
        } else {
            proof {
                vstd::arithmetic::div_mod::lemma_fundamental_div_mod(cap as int, 10);
                assert(acc * 10 <= (cap / 10) * 10 + 9) by (nonlinear_arith)
                    requires
                        acc <= cap / 10,
                ;
            }
            acc = acc * 10 + d;
            if acc > cap {
                acc = cap + 1;
            }
        }
        i = i + 1;
    }
    if acc > cap {
        None
    } else {
        Some(acc)
    }
}

/// Once a prefix value exceeds the cap, every longer prefix does too.
proof fn lemma_cap_exceeded(s: Seq<char>, n: int, cap: int)
    requires
        0 <= n < s.len(),
        forall|k: int| 0 <= k < n + 1 ==> digit_val(#[trigger] s[k]) < 10,
        dec_value_prefix(s, n) > cap / 10,
        dec_value_prefix(s, n) >= 0,
        cap >= 0,
    ensures
        dec_value_prefix(s, n + 1) > cap,
{
    let p = dec_value_prefix(s, n);
    vstd::arithmetic::div_mod::lemma_fundamental_div_mod(cap, 10);
    vstd::arithmetic::div_mod::lemma_mod_bound(cap, 10);
    assert(p * 10 >= (cap / 10 + 1) * 10) by (nonlinear_arith)
        requires
            p >= cap / 10 + 1,
    ;
}

/// Prefix values are nonnegative once every digit is valid up to `n`.
proof fn lemma_dec_value_prefix_mono_all(s: Seq<char>, n: int)
    requires
        0 <= n <= s.len(),
        forall|k: int| 0 <= k < n ==> digit_val(#[trigger] s[k]) < 10,
    ensures
        dec_value_prefix(s, n) >= 0,
        n > 0 ==> dec_value_prefix(s, n) >= dec_value_prefix(s, n - 1),
    decreases n,
{
    if n > 0 {
        lemma_dec_value_prefix_mono_all(s, n - 1);
        assert(dec_value_prefix(s, n - 1) * 10 >= dec_value_prefix(s, n - 1))
            by (nonlinear_arith)
            requires
                dec_value_prefix(s, n - 1) >= 0,
        ;
    }
}

/// The characters of a string, in order.
pub fn chars_of(s: &str) -> (cv: Vec<char>)
    ensures
        cv@ == s@,
{
    let n = s.unicode_len();
    let mut cv: Vec<char> = Vec::new();
    let mut i: usize = 0;
    while i < n
        invariant
            i <= n,
            n == s@.len(),
            cv@.len() == i,
            forall|k: int| 0 <= k < i ==> cv@[k] == s@[k],
        decreases n - i,
    {
        cv.push(s.get_char(i));
        i = i + 1;
    }
    proof {
        assert(cv@ =~= s@);
    }
    cv
}

/// Whether two strings hold the same characters.
pub fn str_eq(a: &str, b: &str) -> (r: bool)
    ensures
        r == (a@ == b@),
{
    let la = a.unicode_len();
    let lb = b.unicode_len();
    if la != lb {
        return false;
    }
    let mut i: usize = 0;
    while i < la
        invariant
            i <= la,
            la == a@.len(),
            la == b@.len(),
            forall|k: int| 0 <= k < i ==> a@[k] == b@[k],
        decreases la - i,
    {
        if a.get_char(i) != b.get_char(i) {
            return false;
        }
        i = i + 1;
    }
    proof {
        assert(a@ =~= b@);
    }
    true
}

/// The bounds of the whitespace-trimmed core of the range [lo, hi) of
/// `chars`: trimming the range yields exactly [i, j).
pub fn trim_range(chars: &Vec<char>, lo: usize, hi: usize) -> (r: (usize, usize))
    requires
        lo <= hi <= chars@.len(),
    ensures
        lo <= r.0 <= r.1 <= hi,
        trimmed(chars@.subrange(lo as int, hi as int)) == chars@.subrange(
            r.0 as int,
            r.1 as int,
        ),
{
    let ghost t = chars@.subrange(lo as int, hi as int);
    let mut i: usize = lo;
    while i < hi && is_space(chars[i])
        invariant
            lo <= i <= hi <= chars@.len(),
            forall|k: int| lo <= k < i ==> is_space_char(#[trigger] chars@[k]),
        decreases hi - i,
    {
        i = i + 1;
    }
    let mut j: usize = hi;
    while j > i && is_space(chars[j - 1])
        invariant
            i <= j <= hi,
            hi <= chars@.len(),
            forall|k: int| j <= k < hi ==> is_space_char(#[trigger] chars@[k]),
        decreases j,
    {
        j = j - 1;
    }
    proof {
        assert(forall|k: int| 0 <= k < i - lo ==> is_space_char(#[trigger] t[k]));
        assert(i < hi ==> !is_space_char(t[i - lo]));
        lemma_drop_leading_ws_at(t, i - lo);
        let u = t.subrange(i - lo, t.len() as int);
        assert(forall|k: int| j - i <= k < u.len() ==> is_space_char(#[trigger] u[k]));
        assert(j > i ==> !is_space_char(u[j - 1 - i]));
        lemma_drop_trailing_ws_at(u, j - i);
        assert(u.subrange(0, j - i) =~= chars@.subrange(i as int, j as int));
    }
    (i, j)
}

/// Exec whitespace test; exact mirror of `is_space_char`.
pub fn is_space(c: char) -> (r: bool)
    ensures
        r == is_space_char(c),
{
    c == ' ' || c == '\t' || c == '\n' || c == '\r' || c == '\u{c}'
}

} // verus!
