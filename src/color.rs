use vstd::prelude::*;

verus! {

/// A 24-bit true-color value.
#[derive(Clone, Copy, Debug, PartialEq, Eq, Structural)]
pub struct Rgb {
    pub r: u8,
    pub g: u8,
    pub b: u8,
}

/// The color used when a palette would otherwise be empty.
pub open spec fn fallback_color() -> Rgb {
    Rgb { r: 0, g: 255, b: 0 }
}

pub open spec fn is_hex_digit(c: char) -> bool {
    ('0' <= c && c <= '9') || ('a' <= c && c <= 'f') || ('A' <= c && c <= 'F')
}

/// Numeric value of an ASCII hexadecimal digit.
pub open spec fn hex_digit_value(c: char) -> int {
    if '0' <= c && c <= '9' {
        c as int - '0' as int
    } else if 'a' <= c && c <= 'f' {
        c as int - 'a' as int + 10
    } else {
        c as int - 'A' as int + 10
    }
}

/// The text with every leading `#` removed.
pub open spec fn strip_hashes(s: Seq<char>) -> Seq<char>
    decreases s.len(),
{
    if s.len() > 0 && s[0] == '#' {
        strip_hashes(s.drop_first())
    } else {
        s
    }
}

/// Unicode `White_Space`, the characters that `char::is_whitespace` and `str::trim`
/// treat as whitespace.
pub open spec fn is_white_space(c: char) -> bool {
    ('\u{9}' <= c && c <= '\u{d}') || c == ' ' || c == '\u{85}' || c == '\u{a0}' || c
        == '\u{1680}' || ('\u{2000}' <= c && c <= '\u{200a}') || c == '\u{2028}' || c
        == '\u{2029}' || c == '\u{202f}' || c == '\u{205f}' || c == '\u{3000}'
}

/// The text without its leading whitespace.
pub open spec fn trim_start_ws(s: Seq<char>) -> Seq<char>
    decreases s.len(),
{
    if s.len() > 0 && is_white_space(s[0]) {
        trim_start_ws(s.drop_first())
    } else {
        s
    }
}

/// The text without its trailing whitespace.
pub open spec fn trim_end_ws(s: Seq<char>) -> Seq<char>
    decreases s.len(),
{
    if s.len() > 0 && is_white_space(s.last()) {
        trim_end_ws(s.drop_last())
    } else {
        s
    }
}

/// The text without leading and trailing whitespace.
pub open spec fn trim_ws(s: Seq<char>) -> Seq<char> {
    trim_end_ws(trim_start_ws(s))
}

/// A two-character byte in base 16: two hexadecimal digits, or `+` and one digit.
pub open spec fn is_hex_pair(a: char, b: char) -> bool {
    (is_hex_digit(a) || a == '+') && is_hex_digit(b)
}

/// The value of a byte written as `is_hex_pair` allows.
pub open spec fn hex_byte(a: char, b: char) -> u8 {
    if a == '+' {
        hex_digit_value(b) as u8
    } else {
        (16 * hex_digit_value(a) + hex_digit_value(b)) as u8
    }
}

/// The first six characters are three bytes in base 16.
pub open spec fn leads_with_three_bytes(h: Seq<char>) -> bool {
    &&& h.len() >= 6
    &&& is_hex_pair(h[0], h[1])
    &&& is_hex_pair(h[2], h[3])
    &&& is_hex_pair(h[4], h[5])
}

/// Three bytes in base 16, after any leading `#`, with surrounding whitespace ignored.
pub open spec fn is_hex_color(s: Seq<char>) -> bool {
    let h = strip_hashes(trim_ws(s));
    h.len() == 6 && leads_with_three_bytes(h)
}

/// The color spelled by the first three bytes of `h`.
pub open spec fn rgb_of_digits(h: Seq<char>) -> Rgb {
    Rgb { r: hex_byte(h[0], h[1]), g: hex_byte(h[2], h[3]), b: hex_byte(h[4], h[5]) }
}

/// The color that a `#rrggbb` text denotes, if it is one.
pub open spec fn parse_hex_color(s: Seq<char>) -> Option<Rgb> {
    if is_hex_color(s) {
        Some(rgb_of_digits(strip_hashes(trim_ws(s))))
    } else {
        None
    }
}

fn hex_digit(c: char) -> (r: Option<u8>)
    ensures
        r == (if is_hex_digit(c) {
            Some(hex_digit_value(c) as u8)
        } else {
            None::<u8>
        }),
        r is Some ==> r->0 < 16,
{
    if '0' <= c && c <= '9' {
        Some((c as u32 - '0' as u32) as u8)
    } else if 'a' <= c && c <= 'f' {
        Some((c as u32 - 'a' as u32 + 10) as u8)
    } else if 'A' <= c && c <= 'F' {
        Some((c as u32 - 'A' as u32 + 10) as u8)
    } else {
        None
    }
}

/// Whether a character is Unicode whitespace.
pub fn is_whitespace_char(c: char) -> (r: bool)
    ensures
        r == is_white_space(c),
{
    ('\u{9}' <= c && c <= '\u{d}') || c == ' ' || c == '\u{85}' || c == '\u{a0}' || c
        == '\u{1680}' || ('\u{2000}' <= c && c <= '\u{200a}') || c == '\u{2028}' || c
        == '\u{2029}' || c == '\u{202f}' || c == '\u{205f}' || c == '\u{3000}'
}

/// The bounds of `s` without its leading and trailing whitespace.
fn trim_bounds(s: &str) -> (r: (usize, usize))
    ensures
        r.0 <= r.1 <= s@.len(),
        s@.subrange(r.0 as int, r.1 as int) == trim_ws(s@),
{
    let n = s.unicode_len();
    let mut i: usize = 0;
    assert(s@.subrange(0, n as int) =~= s@);
    while i < n && is_whitespace_char(s.get_char(i))
        invariant
            n == s@.len(),
            i <= n,
            trim_start_ws(s@) == trim_start_ws(s@.subrange(i as int, n as int)),
        decreases n - i,
    {
        assert(s@.subrange(i as int, n as int).drop_first() =~= s@.subrange(i + 1, n as int));
        i = i + 1;
    }
    assert(trim_start_ws(s@) == s@.subrange(i as int, n as int));
    let mut j: usize = n;
    while j > i && is_whitespace_char(s.get_char(j - 1))
        invariant
            n == s@.len(),
            i <= j <= n,
            trim_ws(s@) == trim_end_ws(s@.subrange(i as int, j as int)),
        decreases j - i,
    {
        assert(s@.subrange(i as int, j as int).drop_last() =~= s@.subrange(i as int, j - 1));
        j = j - 1;
    }
    assert(trim_end_ws(s@.subrange(i as int, j as int)) == s@.subrange(i as int, j as int));
    (i, j)
}

/// The start of the text in `lo..hi` after its leading `#`.
fn skip_hashes(s: &str, lo: usize, hi: usize) -> (k: usize)
    requires
        lo <= hi <= s@.len(),
    ensures
        lo <= k <= hi,
        strip_hashes(s@.subrange(lo as int, hi as int)) == s@.subrange(k as int, hi as int),
{
    let mut k: usize = lo;
    while k < hi && s.get_char(k) == '#'
        invariant
            lo <= k <= hi,
            hi <= s@.len(),
            strip_hashes(s@.subrange(lo as int, hi as int)) == strip_hashes(
                s@.subrange(k as int, hi as int),
            ),
        decreases hi - k,
    {
        assert(s@.subrange(k as int, hi as int).drop_first() =~= s@.subrange(k + 1, hi as int));
        k = k + 1;
    }
    k
}

fn hex_pair(a: char, b: char) -> (r: Option<u8>)
    ensures
        r == (if is_hex_pair(a, b) {
            Some(hex_byte(a, b))
        } else {
            None::<u8>
        }),
{
    let lo = match hex_digit(b) {
        Some(d) => d,
        None => {
            return None;
        },
    };
    if a == '+' {
        return Some(lo);
    }
    match hex_digit(a) {
        Some(hi) => Some(hi * 16 + lo),
        None => None,
    }
}

/// The color spelled by the three bytes of `s` from `k` on, if they are well formed.
fn six_digits_at(s: &str, k: usize, hi: usize) -> (r: Option<Rgb>)
    requires
        k + 6 <= hi <= s@.len(),
    ensures
        r == (if leads_with_three_bytes(s@.subrange(k as int, hi as int)) {
            Some(rgb_of_digits(s@.subrange(k as int, hi as int)))
        } else {
            None::<Rgb>
        }),
{
    let ghost h = s@.subrange(k as int, hi as int);
    let r = match hex_pair(s.get_char(k), s.get_char(k + 1)) {
        Some(v) => v,
        None => {
            return None;
        },
    };
    let g = match hex_pair(s.get_char(k + 2), s.get_char(k + 3)) {
        Some(v) => v,
        None => {
            return None;
        },
    };
    let b = match hex_pair(s.get_char(k + 4), s.get_char(k + 5)) {
        Some(v) => v,
        None => {
            return None;
        },
    };
    Some(Rgb { r, g, b })
}

/// Parses a color written as `#rrggbb`: surrounding whitespace is ignored, then any
/// number of leading `#`, then exactly three bytes of two characters each, a byte being
/// two hexadecimal digits or `+` and one digit.
pub fn hex_to_color(hex: &str) -> (r: Option<Rgb>)
    ensures
        r == parse_hex_color(hex@),
{
    let (lo, hi) = trim_bounds(hex);
    let k = skip_hashes(hex, lo, hi);
    if hi - k != 6 {
        return None;
    }
    six_digits_at(hex, k, hi)
}

} // verus!

verus! {

/// Reads the channels from the first three bytes after any leading `#` (each two
/// hexadecimal digits, or `+` and one digit); anything after them is ignored.
pub fn hex_to_rgb(hex: &str) -> (r: (u8, u8, u8))
    requires
        leads_with_three_bytes(strip_hashes(hex@)),
    ensures
        r == (
            rgb_of_digits(strip_hashes(hex@)).r,
            rgb_of_digits(strip_hashes(hex@)).g,
            rgb_of_digits(strip_hashes(hex@)).b,
        ),
{
    let n = hex.unicode_len();
    assert(hex@.subrange(0, n as int) =~= hex@);
    let k = skip_hashes(hex, 0, n);
    match six_digits_at(hex, k, n) {
        Some(c) => (c.r, c.g, c.b),
        None => (0, 0, 0),
    }
}

} // verus!
