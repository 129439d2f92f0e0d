use matrix_rain::color::{hex_to_color, hex_to_rgb, is_whitespace_char, Rgb};
use matrix_rain::config::{check_scroll_speed, select_palette, ConfigError};
use matrix_rain::palette::{colorsets, Palette, PaletteName};

fn rgb(r: u8, g: u8, b: u8) -> Rgb {
    Rgb { r, g, b }
}

#[test]
fn hex_parses_channels() {
    assert_eq!(hex_to_color("#39c4b6"), Some(rgb(0x39, 0xc4, 0xb6)));
    assert_eq!(hex_to_color("##ABCDEF"), Some(rgb(0xab, 0xcd, 0xef)));
    assert_eq!(hex_to_color("0051ff"), Some(rgb(0x00, 0x51, 0xff)));
    assert_eq!(hex_to_rgb("#fee801"), (0xfe, 0xe8, 0x01));
}

#[test]
fn hex_rejects_malformed() {
    assert_eq!(hex_to_color("#12345"), None);
    assert_eq!(hex_to_color("#1234567"), None);
    assert_eq!(hex_to_color("#12345g"), None);
    assert_eq!(hex_to_color(""), None);
    assert_eq!(hex_to_color("#"), None);
}

#[test]
fn from_hex_skips_bad_entries_and_falls_back() {
    let p = Palette::from_hex(&["#000000", "nope", "#ffffff"]);
    assert_eq!(p.colors().clone(), vec![rgb(0, 0, 0), rgb(255, 255, 255)]);
    let q = Palette::from_hex(&["bad"]);
    assert_eq!(q.colors().clone(), vec![rgb(0, 255, 0)]);
    let e = Palette::from_hex(&[]);
    assert_eq!(e.colors().clone(), vec![rgb(0, 255, 0)]);
}

#[test]
fn named_palettes_hold_their_stops() {
    let d = Palette::from_name(PaletteName::Determination);
    assert_eq!(
        d.colors().clone(),
        vec![rgb(0x39, 0xc4, 0xb6), rgb(0xfe, 0xe8, 0x01), rgb(0x63, 0x00, 0xff)]
    );
    let t = Palette::from_name(PaletteName::Thermography);
    assert_eq!(t.colors().len(), 4);
    assert_eq!(t.colors()[3], rgb(0xad, 0x00, 0xff));
    let c = Palette::from_name(PaletteName::C2077);
    assert_eq!(c.colors()[0], rgb(0xc5, 0x00, 0x3c));
}

#[test]
fn gradient_endpoints_are_exact() {
    let p = Palette::from_name(PaletteName::City);
    assert_eq!(p.gradient_color(0, 10), rgb(0xff, 0x06, 0x77));
    assert_eq!(p.gradient_color(10, 10), rgb(0x89, 0x00, 0xff));
    assert_eq!(p.gradient_color(25, 10), rgb(0x89, 0x00, 0xff));
}

#[test]
fn gradient_single_stop_is_constant() {
    let p = Palette::from_hex(&["#123456"]);
    for num in 0..=12u32 {
        assert_eq!(p.gradient_color(num, 10), rgb(0x12, 0x34, 0x56));
    }
}

#[test]
fn gradient_blends_linearly() {
    let p = Palette::from_hex(&["#000000", "#ffffff"]);
    assert_eq!(p.gradient_color(5, 10), rgb(127, 127, 127));
    assert_eq!(p.gradient_color(1, 10), rgb(25, 25, 25));
    let q = Palette::from_hex(&["#000000", "#ff0000", "#00ff00"]);
    // 3/4 lies halfway between the second and third stops.
    assert_eq!(q.gradient_color(3, 4), rgb(127, 127, 0));
    assert_eq!(q.gradient_color(1, 2), rgb(255, 0, 0));
}

#[test]
fn palette_names_list_in_order() {
    let names: Vec<&str> = PaletteName::all().iter().map(|p| p.name()).collect();
    assert_eq!(names, vec!["determination", "city", "2077", "thermography"]);
}

#[test]
fn palette_names_parse() {
    assert_eq!(PaletteName::parse("city"), Some(PaletteName::City));
    assert_eq!(PaletteName::parse("2077"), Some(PaletteName::C2077));
    assert_eq!(PaletteName::parse("City"), None);
    assert_eq!(PaletteName::parse(""), None);
}

#[test]
fn colorsets_pair_names_with_palettes() {
    let sets = colorsets();
    assert_eq!(sets.len(), 4);
    assert_eq!(sets[1].0, PaletteName::City);
    assert_eq!(sets[1].1.colors()[1], rgb(0x00, 0x51, 0xff));
    assert_eq!(sets[2].1.colors().len(), 4);
}

#[test]
fn palette_selection() {
    assert_eq!(select_palette(None), Ok(PaletteName::Determination));
    assert_eq!(select_palette(Some("thermography")), Ok(PaletteName::Thermography));
    assert_eq!(select_palette(Some("neon")), Err(ConfigError::UnknownPalette));
}

#[test]
fn scroll_speed_range() {
    assert_eq!(check_scroll_speed(0), Ok(0));
    assert_eq!(check_scroll_speed(10), Ok(10));
    assert_eq!(check_scroll_speed(11), Err(ConfigError::ScrollSpeedOutOfRange));
    assert_eq!(check_scroll_speed(-1), Err(ConfigError::ScrollSpeedOutOfRange));
}

#[test]
fn hex_ignores_surrounding_whitespace() {
    assert_eq!(hex_to_color("  #fee801 "), Some(rgb(254, 232, 1)));
    assert_eq!(hex_to_color(" #000000 "), Some(rgb(0, 0, 0)));
    assert_eq!(hex_to_color("\t#123456\n"), Some(rgb(0x12, 0x34, 0x56)));
    assert_eq!(hex_to_color("\u{3000}6300FF\u{a0}"), Some(rgb(99, 0, 255)));
    assert_eq!(hex_to_color("# 123456"), None);
    assert_eq!(hex_to_color("  "), None);
}

#[test]
fn hex_to_rgb_reads_first_six_digits() {
    assert_eq!(hex_to_rgb("#1234567"), (18, 52, 86));
    assert_eq!(hex_to_rgb("##abcdefXYZ"), (0xab, 0xcd, 0xef));
}

#[test]
fn whitespace_set() {
    assert!(is_whitespace_char(' '));
    assert!(is_whitespace_char('\n'));
    assert!(is_whitespace_char('\u{2003}'));
    assert!(!is_whitespace_char('#'));
    assert!(!is_whitespace_char('\u{200b}'));
}

#[test]
fn hex_accepts_plus_signed_bytes() {
    assert_eq!(hex_to_color("#+1+2+3"), Some(rgb(1, 2, 3)));
    assert_eq!(hex_to_color("+f00+a"), Some(rgb(15, 0, 10)));
    assert_eq!(hex_to_color("#1+2345"), None);
    assert_eq!(hex_to_color("#++1234"), None);
    assert_eq!(hex_to_rgb("#+1+2+3xyz"), (1, 2, 3));
}
