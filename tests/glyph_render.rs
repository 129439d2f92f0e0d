use matrix_rain::glyph::{block_lines, glyph_3x5, line_cells, render_3x5, to_ascii_upper};

#[test]
fn glyph_of_h() {
    assert_eq!(glyph_3x5('H'), ["# #", "# #", "###", "# #", "# #"]);
    assert_eq!(glyph_3x5('h'), glyph_3x5('H'));
}

#[test]
fn glyph_of_space_is_blank() {
    assert_eq!(glyph_3x5(' '), ["   ", "   ", "   ", "   ", "   "]);
}

#[test]
fn glyph_unknown_uses_placeholder() {
    assert_eq!(glyph_3x5('@'), ["###", " # ", "###", " # ", "###"]);
}

#[test]
fn upper_maps_only_ascii_lowercase() {
    assert_eq!(to_ascii_upper('q'), 'Q');
    assert_eq!(to_ascii_upper('Q'), 'Q');
    assert_eq!(to_ascii_upper('1'), '1');
    assert_eq!(to_ascii_upper('ä'), 'ä');
}

#[test]
fn render_hi() {
    let rows = render_3x5("HI");
    assert_eq!(
        rows,
        vec!["# # ### ", "# #  #  ", "###  #  ", "# #  #  ", "# # ### "]
    );
}

#[test]
fn render_empty_has_no_rows() {
    assert!(render_3x5("").is_empty());
    assert!(block_lines("").is_empty());
}

#[test]
fn block_and_line_cells() {
    let b = block_lines("I");
    assert_eq!(b.len(), 5);
    assert_eq!(b[0], vec!['#', '#', '#', ' ']);
    let l = line_cells("HI");
    assert_eq!(l, vec![vec!['H', 'I']]);
}
