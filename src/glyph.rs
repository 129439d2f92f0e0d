use vstd::prelude::*;

verus! {

/// The character with ASCII lowercase letters mapped to uppercase.
pub open spec fn ascii_upper(c: char) -> char {
    if 'a' <= c && c <= 'z' {
        ((c as u8) - 32) as char
    } else {
        c
    }
}

pub fn to_ascii_upper(c: char) -> (r: char)
    ensures
        r == ascii_upper(c),
{
    if 'a' <= c && c <= 'z' {
        ((c as u8) - 32) as char
    } else {
        c
    }
}

/// The 3x5 bitmap of an (uppercased) character, top row first.
pub open spec fn glyph_rows(c: char) -> Seq<Seq<char>> {
    match c {
        'A' => seq!["###"@, "# #"@, "###"@, "# #"@, "# #"@],
        'B' => seq!["## "@, "# #"@, "## "@, "# #"@, "## "@],
        'C' => seq!["###"@, "#  "@, "#  "@, "#  "@, "###"@],
        'D' => seq!["## "@, "# #"@, "# #"@, "# #"@, "## "@],
        'E' => seq!["###"@, "#  "@, "###"@, "#  "@, "###"@],
        'F' => seq!["###"@, "#  "@, "###"@, "#  "@, "#  "@],
        'G' => seq!["###"@, "#  "@, "# #"@, "# #"@, "###"@],
        'H' => seq!["# #"@, "# #"@, "###"@, "# #"@, "# #"@],
        'I' => seq!["###"@, " # "@, " # "@, " # "@, "###"@],
        'J' => seq!["###"@, "  #"@, "  #"@, "# #"@, "###"@],
        'K' => seq!["# #"@, "## "@, "#  "@, "## "@, "# #"@],
        'L' => seq!["#  "@, "#  "@, "#  "@, "#  "@, "###"@],
        'M' => seq!["# #"@, "###"@, "###"@, "# #"@, "# #"@],
        'N' => seq!["# #"@, "###"@, "###"@, "###"@, "# #"@],
        'O' => seq!["###"@, "# #"@, "# #"@, "# #"@, "###"@],
        'P' => seq!["###"@, "# #"@, "###"@, "#  "@, "#  "@],
        'Q' => seq!["###"@, "# #"@, "# #"@, "###"@, "  #"@],
        'R' => seq!["###"@, "# #"@, "###"@, "## "@, "# #"@],
        'S' => seq!["###"@, "#  "@, "###"@, "  #"@, "###"@],
        'T' => seq!["###"@, " # "@, " # "@, " # "@, " # "@],
        'U' => seq!["# #"@, "# #"@, "# #"@, "# #"@, "###"@],
        'V' => seq!["# #"@, "# #"@, "# #"@, "# #"@, " # "@],
        'W' => seq!["# #"@, "# #"@, "###"@, "###"@, "# #"@],
        'X' => seq!["# #"@, "# #"@, " # "@, "# #"@, "# #"@],
        'Y' => seq!["# #"@, "# #"@, " # "@, " # "@, " # "@],
        'Z' => seq!["###"@, "  #"@, " # "@, "#  "@, "###"@],
        '0' => seq!["###"@, "# #"@, "# #"@, "# #"@, "###"@],
        '1' => seq![" # "@, "## "@, " # "@, " # "@, "###"@],
        '2' => seq!["###"@, "  #"@, "###"@, "#  "@, "###"@],
        '3' => seq!["###"@, "  #"@, "###"@, "  #"@, "###"@],
        '4' => seq!["# #"@, "# #"@, "###"@, "  #"@, "  #"@],
        '5' => seq!["###"@, "#  "@, "###"@, "  #"@, "###"@],
        '6' => seq!["###"@, "#  "@, "###"@, "# #"@, "###"@],
        '7' => seq!["###"@, "  #"@, " # "@, " # "@, " # "@],
        '8' => seq!["###"@, "# #"@, "###"@, "# #"@, "###"@],
        '9' => seq!["###"@, "# #"@, "###"@, "  #"@, "###"@],
        '!' => seq![" # "@, " # "@, " # "@, "   "@, " # "@],
        '?' => seq!["###"@, "  #"@, " # "@, "   "@, " # "@],
        '.' => seq!["   "@, "   "@, "   "@, "   "@, " # "@],
        ',' => seq!["   "@, "   "@, "   "@, " # "@, "#  "@],
        '-' => seq!["   "@, "   "@, "###"@, "   "@, "   "@],
        '_' => seq!["   "@, "   "@, "   "@, "   "@, "###"@],
        ':' => seq!["   "@, " # "@, "   "@, " # "@, "   "@],
        '/' => seq!["  #"@, "  #"@, " # "@, "#  "@, "#  "@],
        ' ' => seq!["   "@, "   "@, "   "@, "   "@, "   "@],
        _ => seq!["###"@, " # "@, "###"@, " # "@, "###"@],
    }
}

/// One row of a glyph: three cells, each lit (`#`) or blank.
pub open spec fn is_glyph_row(s: Seq<char>) -> bool {
    &&& s.len() == 3
    &&& forall|i: int| 0 <= i < 3 ==> (#[trigger] s[i] == '#' || s[i] == ' ')
}

pub open spec fn is_blank_row(s: Seq<char>) -> bool {
    s == seq![' ', ' ', ' ']
}

/// The 3x5 bitmap of a character, top row first; letters ignore case, and a character
/// without a bitmap of its own gets a placeholder.
pub fn glyph_3x5(ch: char) -> (g: [&'static str; 5])
    ensures
        forall|i: int| 0 <= i < 5 ==> (#[trigger] g[i])@ == glyph_rows(ascii_upper(ch))[i],
        forall|i: int| 0 <= i < 5 ==> is_glyph_row((#[trigger] g[i])@),
        ch == ' ' ==> forall|i: int| 0 <= i < 5 ==> is_blank_row((#[trigger] g[i])@),
{
    proof {
        reveal_strlit("###");
        reveal_strlit("# #");
        reveal_strlit("## ");
        reveal_strlit("#  ");
        reveal_strlit(" # ");
        reveal_strlit("  #");
        reveal_strlit("   ");
    }
    let g: [&'static str; 5] = match to_ascii_upper(ch) {
            'A' => ["###", "# #", "###", "# #", "# #"],
            'B' => ["## ", "# #", "## ", "# #", "## "],
            'C' => ["###", "#  ", "#  ", "#  ", "###"],
            'D' => ["## ", "# #", "# #", "# #", "## "],
            'E' => ["###", "#  ", "###", "#  ", "###"],
            'F' => ["###", "#  ", "###", "#  ", "#  "],
            'G' => ["###", "#  ", "# #", "# #", "###"],
            'H' => ["# #", "# #", "###", "# #", "# #"],
            'I' => ["###", " # ", " # ", " # ", "###"],
            'J' => ["###", "  #", "  #", "# #", "###"],
            'K' => ["# #", "## ", "#  ", "## ", "# #"],
            'L' => ["#  ", "#  ", "#  ", "#  ", "###"],
            'M' => ["# #", "###", "###", "# #", "# #"],
            'N' => ["# #", "###", "###", "###", "# #"],
            'O' => ["###", "# #", "# #", "# #", "###"],
            'P' => ["###", "# #", "###", "#  ", "#  "],
            'Q' => ["###", "# #", "# #", "###", "  #"],
            'R' => ["###", "# #", "###", "## ", "# #"],
            'S' => ["###", "#  ", "###", "  #", "###"],
            'T' => ["###", " # ", " # ", " # ", " # "],
            'U' => ["# #", "# #", "# #", "# #", "###"],
            'V' => ["# #", "# #", "# #", "# #", " # "],
            'W' => ["# #", "# #", "###", "###", "# #"],
            'X' => ["# #", "# #", " # ", "# #", "# #"],
            'Y' => ["# #", "# #", " # ", " # ", " # "],
            'Z' => ["###", "  #", " # ", "#  ", "###"],
            '0' => ["###", "# #", "# #", "# #", "###"],
            '1' => [" # ", "## ", " # ", " # ", "###"],
            '2' => ["###", "  #", "###", "#  ", "###"],
            '3' => ["###", "  #", "###", "  #", "###"],
            '4' => ["# #", "# #", "###", "  #", "  #"],
            '5' => ["###", "#  ", "###", "  #", "###"],
            '6' => ["###", "#  ", "###", "# #", "###"],
            '7' => ["###", "  #", " # ", " # ", " # "],
            '8' => ["###", "# #", "###", "# #", "###"],
            '9' => ["###", "# #", "###", "  #", "###"],
            '!' => [" # ", " # ", " # ", "   ", " # "],
            '?' => ["###", "  #", " # ", "   ", " # "],
            '.' => ["   ", "   ", "   ", "   ", " # "],
            ',' => ["   ", "   ", "   ", " # ", "#  "],
            '-' => ["   ", "   ", "###", "   ", "   "],
            '_' => ["   ", "   ", "   ", "   ", "###"],
            ':' => ["   ", " # ", "   ", " # ", "   "],
            '/' => ["  #", "  #", " # ", "#  ", "#  "],
            ' ' => ["   ", "   ", "   ", "   ", "   "],
            _ => ["###", " # ", "###", " # ", "###"],
        };
    proof {
        assert("   "@ =~= seq![' ', ' ', ' ']);
    }
    g
}

} // verus!

verus! {

/// One rendered row of `text` in the 3x5 font: for each character a glyph row of three
/// cells followed by one blank spacing cell.
pub open spec fn is_block_row(s: Seq<char>, text: Seq<char>) -> bool {
    &&& s.len() == 4 * text.len()
    &&& forall|k: int|
        0 <= k < text.len() ==> {
            &&& is_glyph_row(#[trigger] s.subrange(4 * k, 4 * k + 3))
            &&& s[4 * k + 3] == ' '
            &&& text[k] == ' ' ==> is_blank_row(s.subrange(4 * k, 4 * k + 3))
        }
}

/// Row `r` of `text` in the 3x5 font: each character's glyph row followed by one blank
/// spacing cell.
pub open spec fn block_row(text: Seq<char>, r: int) -> Seq<char>
    decreases text.len(),
{
    if text.len() == 0 {
        Seq::empty()
    } else {
        block_row(text.drop_last(), r) + glyph_rows(ascii_upper(text.last()))[r] + seq![' ']
    }
}

/// Renders `input` as five text rows in the 3x5 font; an empty input renders as no
/// rows at all.
pub fn render_3x5(input: &str) -> (rows: Vec<String>)
    ensures
        input@.len() == 0 ==> rows@.len() == 0,
        input@.len() > 0 ==> rows@.len() == 5,
        forall|r: int| 0 <= r < rows@.len() ==> (#[trigger] rows@[r])@ == block_row(input@, r),
        forall|r: int| 0 <= r < rows@.len() ==> is_block_row((#[trigger] rows@[r])@, input@),
{
    let n = input.unicode_len();
    let mut rows: Vec<String> = Vec::new();
    if n == 0 {
        return rows;
    }
    let mut row: usize = 0;
    while row < 5
        invariant
            n == input@.len(),
            n > 0,
            row <= 5,
            rows@.len() == row,
            forall|r: int| 0 <= r < row ==> (#[trigger] rows@[r])@ == block_row(input@, r),
            forall|r: int| 0 <= r < row ==> is_block_row((#[trigger] rows@[r])@, input@),
        decreases 5 - row,
    {
        let mut s = String::new();
        let mut k: usize = 0;
        while k < n
            invariant
                n == input@.len(),
                row < 5,
                k <= n,
                s@ == block_row(input@.subrange(0, k as int), row as int),
                is_block_row(s@, input@.subrange(0, k as int)),
            decreases n - k,
        {
            let c = input.get_char(k);
            let g = glyph_3x5(c);
            let ghost before = s@;
            s.append(g[row]);
            s.append(" ");
            proof {
                let text = input@.subrange(0, k + 1);
                assert(text.drop_last() =~= input@.subrange(0, k as int));
                assert(is_glyph_row(g[row as int]@));
                reveal_strlit(" ");
                assert(" "@ =~= seq![' ']);
                assert(s@ == before + g[row as int]@ + " "@);
                assert(s@.len() == 4 * k + 4);
                assert(s@[4 * k + 3] == ' ');
                assert(text[k as int] == c);
                assert(text.last() == c);
                assert(g[row as int]@ == glyph_rows(ascii_upper(c))[row as int]);
                assert(s@ =~= block_row(text, row as int));
                assert(c == ' ' ==> is_blank_row(g[row as int]@));
                assert(before =~= s@.subrange(0, 4 * k));
                assert(g[row as int]@ =~= s@.subrange(4 * k, 4 * k + 3));
                assert forall|m: int| 0 <= m < text.len() implies {
                    &&& is_glyph_row(#[trigger] s@.subrange(4 * m, 4 * m + 3))
                    &&& s@[4 * m + 3] == ' '
                    &&& text[m] == ' ' ==> is_blank_row(s@.subrange(4 * m, 4 * m + 3))
                } by {
                    if m < k {
                        assert(s@.subrange(4 * m, 4 * m + 3) =~= before.subrange(4 * m, 4 * m + 3));
                        assert(text[m] == input@.subrange(0, k as int)[m]);
                    }
                }
            }
            k = k + 1;
        }
        assert(input@.subrange(0, n as int) =~= input@);
        rows.push(s);
        row = row + 1;
    }
    rows
}

} // verus!

verus! {

/// The characters of a text, one cell each.
pub fn chars_of(s: &str) -> (r: Vec<char>)
    ensures
        r@ == s@,
{
    let n = s.unicode_len();
    let mut r: Vec<char> = Vec::new();
    let mut i: usize = 0;
    while i < n
        invariant
            n == s@.len(),
            i <= n,
            r@ == s@.subrange(0, i as int),
        decreases n - i,
    {
        r.push(s.get_char(i));
        assert(r@ =~= s@.subrange(0, i + 1));
        i = i + 1;
    }
    assert(r@ =~= s@);
    r
}

/// The target cells of `text` in the 3x5 font: five rows of cells, or none for an
/// empty text.
pub fn block_lines(text: &str) -> (lines: Vec<Vec<char>>)
    ensures
        text@.len() == 0 ==> lines@.len() == 0,
        text@.len() > 0 ==> lines@.len() == 5,
        forall|r: int| 0 <= r < lines@.len() ==> (#[trigger] lines@[r])@ == block_row(text@, r),
        forall|r: int| 0 <= r < lines@.len() ==> is_block_row((#[trigger] lines@[r])@, text@),
{
    let rows = render_3x5(text);
    let mut lines: Vec<Vec<char>> = Vec::new();
    let mut k: usize = 0;
    while k < rows.len()
        invariant
            k <= rows@.len(),
            text@.len() == 0 ==> rows@.len() == 0,
            text@.len() > 0 ==> rows@.len() == 5,
            forall|r: int| 0 <= r < rows@.len() ==> (#[trigger] rows@[r])@ == block_row(text@, r),
            forall|r: int| 0 <= r < rows@.len() ==> is_block_row((#[trigger] rows@[r])@, text@),
            lines@.len() == k,
            forall|r: int| 0 <= r < k ==> (#[trigger] lines@[r])@ == rows@[r]@,
        decreases rows@.len() - k,
    {
        lines.push(chars_of(rows[k].as_str()));
        k = k + 1;
    }
    lines
}

/// The target cells of `text` as one plain line.
pub fn line_cells(text: &str) -> (lines: Vec<Vec<char>>)
    ensures
        lines@.len() == 1,
        lines@[0]@ == text@,
{
    let mut lines: Vec<Vec<char>> = Vec::new();
    lines.push(chars_of(text));
    lines
}

} // verus!
