use vstd::prelude::*;

use crate::color::{
    fallback_color, hex_to_color, is_hex_digit, parse_hex_color, rgb_of_digits, strip_hashes, trim_end_ws,
    trim_start_ws, trim_ws, Rgb,
};

verus! {

/// The colors that a list of hex texts yields: each well-formed entry, in order.
pub open spec fn parsed_colors(hexes: Seq<&str>) -> Seq<Rgb>
    decreases hexes.len(),
{
    if hexes.len() == 0 {
        Seq::empty()
    } else {
        let rest = parsed_colors(hexes.drop_last());
        match parse_hex_color(hexes.last()@) {
            Some(c) => rest.push(c),
            None => rest,
        }
    }
}

/// The palette built from a list of hex texts: the parsed colors, or the fallback
/// color alone when none parses.
pub open spec fn palette_of_hexes(hexes: Seq<&str>) -> Seq<Rgb> {
    if parsed_colors(hexes).len() == 0 {
        seq![fallback_color()]
    } else {
        parsed_colors(hexes)
    }
}

/// One channel of the blend `a + (b - a) * rem / den`, rounded down.
pub open spec fn blend_channel(a: u8, b: u8, rem: int, den: int) -> int {
    (a as int * (den - rem) + b as int * rem) / den
}

pub open spec fn blend_spec(a: Rgb, b: Rgb, rem: int, den: int) -> Rgb {
    Rgb {
        r: blend_channel(a.r, b.r, rem, den) as u8,
        g: blend_channel(a.g, b.g, rem, den) as u8,
        b: blend_channel(a.b, b.b, rem, den) as u8,
    }
}

/// The color at position `num / den` (clamped to 1) along the stops: the position is
/// scaled over the `n - 1` segments, and the two stops bounding it are blended by the
/// fractional remainder.
pub open spec fn gradient_spec(colors: Seq<Rgb>, num: int, den: int) -> Rgb {
    if colors.len() == 1 {
        colors[0]
    } else {
        let n = colors.len() as int;
        let t = if num < den {
            num
        } else {
            den
        };
        let scaled = t * (n - 1);
        let i = scaled / den;
        let j = if i + 1 < n - 1 {
            i + 1
        } else {
            n - 1
        };
        blend_spec(colors[i], colors[j], scaled % den, den)
    }
}

/// An ordered, never empty, list of color stops.
pub struct Palette {
    colors: Vec<Rgb>,
}

impl View for Palette {
    type V = Seq<Rgb>;

    closed spec fn view(&self) -> Seq<Rgb> {
        self.colors@
    }
}

impl Palette {
    pub open spec fn wf(&self) -> bool {
        self@.len() >= 1
    }

    /// Builds a palette from `#rrggbb` texts, skipping malformed ones.
    pub fn from_hex(hexes: &[&str]) -> (p: Palette)
        ensures
            p.wf(),
            p@ == palette_of_hexes(hexes@),
    {
        let mut colors: Vec<Rgb> = Vec::new();
        let mut k: usize = 0;
        while k < hexes.len()
            invariant
                k <= hexes@.len(),
                colors@ == parsed_colors(hexes@.subrange(0, k as int)),
            decreases hexes@.len() - k,
        {
            assert(hexes@.subrange(0, k + 1).drop_last() =~= hexes@.subrange(0, k as int));
            if let Some(c) = hex_to_color(hexes[k]) {
                colors.push(c);
            }
            k = k + 1;
        }
        assert(hexes@.subrange(0, k as int) =~= hexes@);
        if colors.len() == 0 {
            colors.push(Rgb { r: 0, g: 255, b: 0 });
            assert(colors@ =~= seq![fallback_color()]);
        }
        Palette { colors }
    }

    /// The color stops, first to last.
    pub fn colors(&self) -> (r: &Vec<Rgb>)
        ensures
            r@ == self@,
    {
        &self.colors
    }

    /// The color at position `num / den` along the palette; positions past the end are
    /// clamped to the last stop.
    pub fn gradient_color(&self, num: u32, den: u32) -> (c: Rgb)
        requires
            self.wf(),
            den > 0,
        ensures
            c == gradient_spec(self@, num as int, den as int),
    {
        let n = self.colors.len();
        if n == 1 {
            return self.colors[0];
        }
        let t: u128 = if num < den {
            num as u128
        } else {
            den as u128
        };
        let d: u128 = den as u128;
        proof {
            assert(t * (n as u128 - 1) <= 0xffff_ffffu128 * 0xffff_ffff_ffff_ffffu128)
                by (nonlinear_arith)
                requires
                    t <= 0xffff_ffffu128,
                    n as u128 - 1 <= 0xffff_ffff_ffff_ffffu128,
            ;
        }
        let scaled: u128 = t * (n as u128 - 1);
        let i: u128 = scaled / d;
        let rem: u128 = scaled % d;
        proof {
            assert(t * (n - 1) <= d * (n - 1)) by (nonlinear_arith)
                requires
                    t <= d,
                    n >= 1,
            ;
            assert(scaled / d <= n - 1) by (nonlinear_arith)
                requires
                    scaled <= d * (n - 1),
                    d > 0,
            ;
        }
        let iu = i as usize;
        let ju: usize = if iu + 1 < n - 1 {
            iu + 1
        } else {
            n - 1
        };
        blend(self.colors[iu], self.colors[ju], rem, d)
    }
}

fn blend_u8(a: u8, b: u8, rem: u128, den: u128) -> (r: u8)
    requires
        rem < den,
        den <= u32::MAX,
    ensures
        r as int == blend_channel(a, b, rem as int, den as int),
{
    proof {
        assert(a as u128 * (den - rem) <= 255 * den) by (nonlinear_arith)
            requires
                a <= 255,
                rem < den,
        ;
        assert(b as u128 * rem <= 255 * den) by (nonlinear_arith)
            requires
                b <= 255,
                rem < den,
        ;
    }
    let x: u128 = a as u128 * (den - rem) + b as u128 * rem;
    proof {
        assert(x <= 255 * den) by (nonlinear_arith)
            requires
                x == a * (den - rem) + b * rem,
                a <= 255,
                b <= 255,
                rem < den,
        ;
        assert(x / den <= 255) by (nonlinear_arith)
            requires
                x <= 255 * den,
                den > 0,
        ;
    }
    (x / den) as u8
}

fn blend(a: Rgb, b: Rgb, rem: u128, den: u128) -> (c: Rgb)
    requires
        rem < den,
        den <= u32::MAX,
    ensures
        c == blend_spec(a, b, rem as int, den as int),
{
    Rgb { r: blend_u8(a.r, b.r, rem, den), g: blend_u8(a.g, b.g, rem, den), b: blend_u8(a.b, b.b, rem, den) }
}

} // verus!

verus! {

proof fn lemma_blend_at_start(a: Rgb, b: Rgb, den: int)
    requires
        den > 0,
    ensures
        blend_spec(a, b, 0, den) == a,
{
    assert forall|x: u8, y: u8| #[trigger] blend_channel(x, y, 0, den) == x as int by {
        assert((x as int * (den - 0) + y as int * 0) / den == x as int) by (nonlinear_arith)
            requires
                den > 0,
        ;
    }
}

/// The gradient starts exactly at the first stop and ends exactly at the last one (any
/// position at or past the end counts as the end); a palette of one stop yields that
/// stop everywhere.
pub proof fn lemma_gradient_endpoints(colors: Seq<Rgb>, num: int, den: int)
    requires
        colors.len() >= 1,
        den > 0,
        num >= 0,
    ensures
        gradient_spec(colors, 0, den) == colors[0],
        num >= den ==> gradient_spec(colors, num, den) == colors[colors.len() - 1],
        colors.len() == 1 ==> gradient_spec(colors, num, den) == colors[0],
{
    let n = colors.len() as int;
    if n > 1 {
        assert(0 * (n - 1) == 0);
        assert(0int / den == 0 && 0int % den == 0);
        lemma_blend_at_start(colors[0], colors[1], den);
        assert((den * (n - 1)) / den == n - 1) by (nonlinear_arith)
            requires
                den > 0,
        ;
        assert((den * (n - 1)) % den == 0) by (nonlinear_arith)
            requires
                den > 0,
        ;
        lemma_blend_at_start(colors[n - 1], colors[n - 1], den);
    }
}

/// The named color sets.
#[derive(Clone, Copy, Debug, PartialEq, Eq, Structural)]
pub enum PaletteName {
    Determination,
    City,
    C2077,
    Thermography,
}

pub open spec fn rgb(r: u8, g: u8, b: u8) -> Rgb {
    Rgb { r, g, b }
}

/// The stops of each named color set.
pub open spec fn named_stops(name: PaletteName) -> Seq<Rgb> {
    match name {
        PaletteName::Determination => seq![
            rgb(0x39, 0xc4, 0xb6),
            rgb(0xfe, 0xe8, 0x01),
            rgb(0x63, 0x00, 0xff),
        ],
        PaletteName::City => seq![
            rgb(0xff, 0x06, 0x77),
            rgb(0x00, 0x51, 0xff),
            rgb(0x89, 0x00, 0xff),
        ],
        PaletteName::C2077 => seq![
            rgb(0xc5, 0x00, 0x3c),
            rgb(0x88, 0x04, 0x25),
            rgb(0xf3, 0xe6, 0x00),
            rgb(0x55, 0xea, 0xd4),
        ],
        PaletteName::Thermography => seq![
            rgb(0xff, 0x00, 0x4a),
            rgb(0xff, 0xcc, 0x3d),
            rgb(0xff, 0x56, 0x31),
            rgb(0xad, 0x00, 0xff),
        ],
    }
}

proof fn lemma_hex_literal(s: &str, c: Rgb)
    requires
        s@.len() == 7,
        s@[0] == '#',
        s@[1] != '#',
        forall|i: int| 1 <= i < 7 ==> is_hex_digit(#[trigger] s@[i]),
        c == rgb_of_digits(s@.drop_first()),
    ensures
        parse_hex_color(s@) == Some(c),
{
    let t = s@.drop_first();
    assert(is_hex_digit(s@[6]));
    assert(trim_start_ws(s@) == s@);
    assert(trim_end_ws(s@) == s@);
    assert(trim_ws(s@) == s@);
    assert(strip_hashes(t) == t);
    assert(strip_hashes(s@) == t);
}

impl Palette {
    /// The palette of a named color set.
    pub fn from_name(name: PaletteName) -> (p: Palette)
        ensures
            p.wf(),
            p@ == named_stops(name),
    {
        match name {
            PaletteName::Determination => {
                let hexes: [&str; 3] = ["#39c4b6", "#fee801", "#6300ff"];
                proof {
                    reveal_strlit("#39c4b6");
                    reveal_strlit("#fee801");
                    reveal_strlit("#6300ff");
                    lemma_hex_literal(hexes[0], rgb(0x39, 0xc4, 0xb6));
                    lemma_hex_literal(hexes[1], rgb(0xfe, 0xe8, 0x01));
                    lemma_hex_literal(hexes[2], rgb(0x63, 0x00, 0xff));
                    reveal_with_fuel(parsed_colors, 4);
                }
                let p = Palette::from_hex(&hexes);
                assert(p@ =~= named_stops(name));
                p
            },
            PaletteName::City => {
                let hexes: [&str; 3] = ["#ff0677", "#0051ff", "#8900ff"];
                proof {
                    reveal_strlit("#ff0677");
                    reveal_strlit("#0051ff");
                    reveal_strlit("#8900ff");
                    lemma_hex_literal(hexes[0], rgb(0xff, 0x06, 0x77));
                    lemma_hex_literal(hexes[1], rgb(0x00, 0x51, 0xff));
                    lemma_hex_literal(hexes[2], rgb(0x89, 0x00, 0xff));
                    reveal_with_fuel(parsed_colors, 4);
                }
                let p = Palette::from_hex(&hexes);
                assert(p@ =~= named_stops(name));
                p
            },
            PaletteName::C2077 => {
                let hexes: [&str; 4] = ["#c5003c", "#880425", "#f3e600", "#55ead4"];
                proof {
                    reveal_strlit("#c5003c");
                    reveal_strlit("#880425");
                    reveal_strlit("#f3e600");
                    reveal_strlit("#55ead4");
                    lemma_hex_literal(hexes[0], rgb(0xc5, 0x00, 0x3c));
                    lemma_hex_literal(hexes[1], rgb(0x88, 0x04, 0x25));
                    lemma_hex_literal(hexes[2], rgb(0xf3, 0xe6, 0x00));
                    lemma_hex_literal(hexes[3], rgb(0x55, 0xea, 0xd4));
                    reveal_with_fuel(parsed_colors, 5);
                }
                let p = Palette::from_hex(&hexes);
                assert(p@ =~= named_stops(name));
                p
            },
            PaletteName::Thermography => {
                let hexes: [&str; 4] = ["#ff004a", "#ffcc3d", "#ff5631", "#ad00ff"];
                proof {
                    reveal_strlit("#ff004a");
                    reveal_strlit("#ffcc3d");
                    reveal_strlit("#ff5631");
                    reveal_strlit("#ad00ff");
                    lemma_hex_literal(hexes[0], rgb(0xff, 0x00, 0x4a));
                    lemma_hex_literal(hexes[1], rgb(0xff, 0xcc, 0x3d));
                    lemma_hex_literal(hexes[2], rgb(0xff, 0x56, 0x31));
                    lemma_hex_literal(hexes[3], rgb(0xad, 0x00, 0xff));
                    reveal_with_fuel(parsed_colors, 5);
                }
                let p = Palette::from_hex(&hexes);
                assert(p@ =~= named_stops(name));
                p
            },
        }
    }
}

} // verus!

verus! {

/// The named color sets in listing order.
pub open spec fn palette_order() -> Seq<PaletteName> {
    seq![
        PaletteName::Determination,
        PaletteName::City,
        PaletteName::C2077,
        PaletteName::Thermography,
    ]
}

/// The name under which each color set is selected and listed.
pub open spec fn name_text(name: PaletteName) -> Seq<char> {
    match name {
        PaletteName::Determination => "determination"@,
        PaletteName::City => "city"@,
        PaletteName::C2077 => "2077"@,
        PaletteName::Thermography => "thermography"@,
    }
}

/// Whether two texts hold the same characters.
pub fn same_text(a: &str, b: &str) -> (r: bool)
    ensures
        r == (a@ == b@),
{
    let n = a.unicode_len();
    if n != b.unicode_len() {
        return false;
    }
    let mut i: usize = 0;
    while i < n
        invariant
            n == a@.len(),
            n == b@.len(),
            i <= n,
            forall|k: int| 0 <= k < i ==> a@[k] == b@[k],
        decreases n - i,
    {
        if a.get_char(i) != b.get_char(i) {
            return false;
        }
        i = i + 1;
    }
    assert(a@ =~= b@);
    true
}

impl PaletteName {
    /// The name under which this color set is selected and listed.
    pub fn name(&self) -> (r: &'static str)
        ensures
            r@ == name_text(*self),
    {
        match self {
            PaletteName::Determination => "determination",
            PaletteName::City => "city",
            PaletteName::C2077 => "2077",
            PaletteName::Thermography => "thermography",
        }
    }

    /// Every color set, in listing order.
    pub fn all() -> (r: Vec<PaletteName>)
        ensures
            r@ == palette_order(),
    {
        let r = vec![
            PaletteName::Determination,
            PaletteName::City,
            PaletteName::C2077,
            PaletteName::Thermography,
        ];
        assert(r@ =~= palette_order());
        r
    }

    /// The color set selected by `text`, if any has that name.
    pub fn parse(text: &str) -> (r: Option<PaletteName>)
        ensures
            r matches Some(p) ==> name_text(p) == text@,
            r is None ==> forall|p: PaletteName| name_text(p) != text@,
    {
        let names = PaletteName::all();
        let mut k: usize = 0;
        while k < names.len()
            invariant
                names@ == palette_order(),
                k <= names@.len(),
                forall|m: int| 0 <= m < k ==> name_text(#[trigger] names@[m]) != text@,
            decreases names@.len() - k,
        {
            if same_text(names[k].name(), text) {
                return Some(names[k]);
            }
            k = k + 1;
        }
        assert forall|p: PaletteName| name_text(p) != text@ by {
            match p {
                PaletteName::Determination => assert(names@[0] == p),
                PaletteName::City => assert(names@[1] == p),
                PaletteName::C2077 => assert(names@[2] == p),
                PaletteName::Thermography => assert(names@[3] == p),
            }
        }
        None
    }
}

/// Every named color set with its palette, in listing order.
pub fn colorsets() -> (r: Vec<(PaletteName, Palette)>)
    ensures
        r@.len() == palette_order().len(),
        forall|i: int|
            0 <= i < r@.len() ==> {
                &&& (#[trigger] r@[i]).0 == palette_order()[i]
                &&& r@[i].1.wf()
                &&& r@[i].1@ == named_stops(r@[i].0)
            },
{
    let names = PaletteName::all();
    let mut sets: Vec<(PaletteName, Palette)> = Vec::new();
    let mut k: usize = 0;
    while k < names.len()
        invariant
            names@ == palette_order(),
            k <= names@.len(),
            sets@.len() == k,
            forall|i: int|
                0 <= i < k ==> {
                    &&& (#[trigger] sets@[i]).0 == palette_order()[i]
                    &&& sets@[i].1.wf()
                    &&& sets@[i].1@ == named_stops(sets@[i].0)
                },
        decreases names@.len() - k,
    {
        let name = names[k];
        sets.push((name, Palette::from_name(name)));
        k = k + 1;
    }
    sets
}

} // verus!
