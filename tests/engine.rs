use matrix_rain::column::{RainColumn, SPAWN_LOW, SPEED_HIGH, SPEED_LOW, TRAIL_LEN};
use matrix_rain::draw::Style;
use matrix_rain::glyph::{block_lines, line_cells};
use matrix_rain::overlay::{place, Layout, Overlay, Rect};
use matrix_rain::palette::Palette;
use matrix_rain::scene::{default_charset, Rain};

fn run(rain: &mut Rain, frames: u64) {
    for f in 1..=frames {
        rain.tick(f * 16);
    }
}

fn two_stop() -> Palette {
    Palette::from_hex(&["#000000", "#ffffff"])
}

#[test]
fn column_advance_moves_and_rotates() {
    let mut c = RainColumn::new(3, -1, 50, 61);
    c.advance(62);
    assert_eq!(c, RainColumn::new(3, 0, 50, 0));
    c.advance(62);
    assert_eq!(c.head_y, 1);
    assert_eq!(c.phase, 1);
}

#[test]
fn column_timer_and_exit() {
    let c = RainColumn::new(0, 19, 60, 0);
    assert!(!c.is_due(59));
    assert!(c.is_due(60));
    assert!(!c.has_exited(10));
    assert!(RainColumn::new(0, 20, 60, 0).has_exited(10));
}

#[test]
fn column_respawn_keeps_position() {
    let mut c = RainColumn::new(7, 20, 60, 4);
    c.respawn(-5, 90, 2);
    assert_eq!(c, RainColumn::new(7, -5, 90, 2));
}

#[test]
fn spawned_columns_are_in_range_and_vary() {
    let mut heads = std::collections::BTreeSet::new();
    for _ in 0..300 {
        let c = RainColumn::spawn(4, 62);
        assert_eq!(c.x, 4);
        assert!(SPAWN_LOW <= c.head_y && c.head_y < 0);
        assert!(SPEED_LOW <= c.speed && c.speed < SPEED_HIGH);
        assert!(c.phase < 62);
        heads.insert(c.head_y);
    }
    assert!(heads.len() > 1);
}

#[test]
fn respawn_random_draws_a_fresh_start() {
    let mut c = RainColumn::new(9, 25, 60, 3);
    c.respawn_random(62);
    assert_eq!(c.x, 9);
    assert!(c.head_y < 0 && c.head_y >= SPAWN_LOW);
    assert!(SPEED_LOW <= c.speed && c.speed < SPEED_HIGH);
}

#[test]
fn placement_centers_block() {
    let (sx, sy, border) = place(20, 10, 8, 5, Layout::Block);
    assert_eq!((sx, sy), (6, 2));
    assert_eq!(border, Rect { x0: 5, y0: 1, x1: 14, y1: 7 });
}

#[test]
fn placement_of_line_sits_above_bottom() {
    let (sx, sy, _) = place(20, 10, 2, 1, Layout::Line);
    assert_eq!((sx, sy), (9, 8));
}

#[test]
fn placement_clamps_wide_target_to_origin() {
    let (sx, _, border) = place(10, 10, 30, 5, Layout::Block);
    assert_eq!(sx, 0);
    assert_eq!(border.x0, 0);
    assert_eq!(border.x1, 9);
    let (sx, _, _) = place(10, 10, 10, 1, Layout::Line);
    assert_eq!(sx, 0);
}

#[test]
fn placement_in_empty_viewport() {
    let (sx, sy, border) = place(0, 0, 4, 5, Layout::Block);
    assert_eq!((sx, sy), (0, 0));
    assert_eq!(border, Rect { x0: 0, y0: 0, x1: 0, y1: 0 });
}

#[test]
fn lock_reveals_only_non_blank_cells() {
    let mut o = Overlay::new(&line_cells("A B"), 20, 10, Layout::Line);
    let (sx, sy) = o.origin();
    assert_eq!((sx, sy), (8, 8));
    o.try_lock(sx, sy as i32);
    assert_eq!(o.revealed(0, 0), Some('A'));
    o.try_lock(sx + 1, sy as i32);
    assert_eq!(o.revealed(0, 1), None);
    o.try_lock(sx + 2, sy as i32 - 1);
    assert_eq!(o.revealed(0, 2), None);
    o.try_lock(sx + 2, sy as i32);
    assert_eq!(o.revealed(0, 2), Some('B'));
}

#[test]
fn lock_is_monotonic() {
    let mut o = Overlay::new(&line_cells("XY"), 20, 10, Layout::Line);
    let (sx, sy) = o.origin();
    o.try_lock(sx + 1, sy as i32);
    for x in 0..20u16 {
        for y in -3..12i32 {
            o.try_lock(x, y);
            assert_eq!(o.revealed(0, 1), Some('Y'));
        }
    }
    assert_eq!(o.revealed(0, 0), Some('X'));
}

#[test]
fn overlay_draws_frame_then_cells() {
    let o = Overlay::new(&block_lines("I"), 20, 10, Layout::Block);
    let mut out = Vec::new();
    o.draw(&mut out);
    let frame: Vec<_> = out.iter().filter(|d| d.style == Style::Frame).collect();
    let cells: Vec<_> = out.iter().filter(|d| d.style == Style::Hidden).collect();
    // frame around a 4 x 5 block: 6 x 7 outline
    assert_eq!(frame.len(), 2 * 6 + 2 * 5);
    assert_eq!(cells.len(), 9);
    assert!(out.iter().take(frame.len()).all(|d| d.style == Style::Frame));
    let corner = out.iter().find(|d| d.x == 7 && d.y == 1).unwrap();
    assert_eq!(corner.ch, '-' as u32);
    let side = out.iter().find(|d| d.x == 7 && d.y == 2).unwrap();
    assert_eq!(side.ch, '|' as u32);
}

#[test]
fn hi_line_is_revealed_in_place() {
    let mut rain = Rain::new(20, 10, &line_cells("HI"), Layout::Line, two_stop(), default_charset(), 0, 0);
    run(&mut rain, 1500);
    let o = rain.overlay();
    assert_eq!(o.origin(), (9, 8));
    assert_eq!(o.revealed(0, 0), Some('H'));
    assert_eq!(o.revealed(0, 1), Some('I'));
}

#[test]
fn hi_block_is_fully_revealed() {
    let lines = block_lines("HI");
    let mut rain = Rain::new(20, 10, &lines, Layout::Block, two_stop(), default_charset(), 0, 0);
    run(&mut rain, 1500);
    let o = rain.overlay();
    for r in 0..o.height() {
        for c in 0..o.width() {
            let t = o.target_char(r, c);
            if t == ' ' {
                assert_eq!(o.revealed(r, c), None);
            } else {
                assert_eq!(o.revealed(r, c), Some(t));
            }
        }
    }
}

#[test]
fn no_scroll_keeps_columns_in_place() {
    let mut rain = Rain::new(20, 10, &line_cells("HI"), Layout::Line, two_stop(), default_charset(), 0, 0);
    for f in 1..=400u64 {
        rain.tick(f * 16);
        assert_eq!(rain.bg_shift(), 0);
        for x in 0..20u16 {
            assert_eq!(rain.draw_x(x), x);
        }
    }
}

#[test]
fn fastest_scroll_shifts_every_frame() {
    let mut rain = Rain::new(20, 10, &line_cells("HI"), Layout::Line, two_stop(), default_charset(), 10, 0);
    rain.tick(16);
    assert_eq!(rain.bg_shift(), 1);
    assert_eq!(rain.draw_x(19), 0);
    rain.tick(32);
    assert_eq!(rain.bg_shift(), 2);
}

#[test]
fn mid_scroll_shifts_every_sixth_frame() {
    let mut rain = Rain::new(20, 10, &line_cells("HI"), Layout::Line, two_stop(), default_charset(), 5, 0);
    for f in 1..=5u64 {
        rain.tick(f * 16);
        assert_eq!(rain.bg_shift(), 0);
    }
    rain.tick(96);
    assert_eq!(rain.bg_shift(), 1);
}

#[test]
fn columns_respawn_above_the_viewport() {
    let mut rain = Rain::new(12, 6, &line_cells("ok"), Layout::Line, two_stop(), default_charset(), 3, 0);
    for f in 1..=2000u64 {
        rain.tick(f * 16);
        for (i, c) in rain.columns().iter().enumerate() {
            assert_eq!(c.x as usize, i);
            assert!(c.head_y >= SPAWN_LOW);
            assert!(c.head_y < 6 + TRAIL_LEN as i32);
            assert!(SPEED_LOW <= c.speed && c.speed < SPEED_HIGH);
            assert!(c.phase < 62);
        }
    }
}

#[test]
fn draws_stay_in_view_and_off_the_frame() {
    let lines = block_lines("HI");
    let mut rain = Rain::new(20, 10, &lines, Layout::Block, two_stop(), default_charset(), 7, 0);
    let border = rain.overlay().border();
    let mut heads = 0;
    for f in 1..=600u64 {
        let out = rain.tick(f * 16);
        for d in &out {
            assert!(d.x < 20 && d.y < 10);
            match d.style {
                Style::Head(_) | Style::Trail(_) => {
                    assert!(!(border.x0 <= d.x && d.x <= border.x1 && border.y0 <= d.y && d.y <= border.y1));
                }
                _ => {}
            }
            if let Style::Head(c) = d.style {
                heads += 1;
                assert_eq!(c, matrix_rain::color::Rgb { r: 0, g: 0, b: 0 });
            }
        }
    }
    assert!(heads > 0);
}

#[test]
fn frame_counter_advances() {
    let mut rain = Rain::new(4, 4, &line_cells(""), Layout::Line, two_stop(), default_charset(), 0, 0);
    rain.tick(16);
    rain.tick(32);
    assert_eq!(rain.frame(), 2);
    assert_eq!(rain.size(), (4, 4));
}

#[test]
fn empty_viewport_draws_nothing() {
    let mut rain = Rain::new(0, 0, &block_lines("HI"), Layout::Block, two_stop(), default_charset(), 5, 0);
    for f in 1..=20u64 {
        assert!(rain.tick(f * 16).is_empty());
    }
}

#[test]
fn charset_has_letters_and_digits() {
    let cs = default_charset();
    assert_eq!(cs.len(), 62);
    assert_eq!(cs[0], 'A');
    assert_eq!(cs[26], 'a');
    assert_eq!(cs[61], '9');
}

#[test]
fn trail_fades_from_first_stop_at_head() {
    let mut rain = Rain::new(20, 10, &line_cells("HI"), Layout::Line, two_stop(), default_charset(), 0, 0);
    let mut trail_colors = std::collections::BTreeSet::new();
    for f in 1..=300u64 {
        for d in rain.tick(f * 16) {
            if let Style::Trail(c) = d.style {
                trail_colors.insert((c.r, c.g, c.b));
            }
        }
    }
    // offsets 1..=10 give 25, 51, ..., 255
    assert!(trail_colors.contains(&(25, 25, 25)));
    assert!(trail_colors.contains(&(255, 255, 255)));
    assert!(!trail_colors.contains(&(0, 0, 0)));
}

#[test]
fn empty_target_is_placed_as_one_row() {
    let o = Overlay::new(&block_lines(""), 20, 10, Layout::Block);
    assert_eq!(o.height(), 0);
    assert_eq!(o.origin(), (10, 4));
    assert_eq!(o.border(), Rect { x0: 9, y0: 3, x1: 10, y1: 5 });
}

#[test]
fn frame_corners_marked_when_target_touches_top_edge() {
    // a five-row block in a five-row viewport starts on row 0, so the top edge
    // coincides with the target's first row
    let o = Overlay::new(&block_lines("I"), 20, 5, Layout::Block);
    assert_eq!(o.origin(), (8, 0));
    let mut out = Vec::new();
    o.draw(&mut out);
    let corner = out.iter().find(|d| d.x == 7 && d.y == 0 && d.style == Style::Frame).unwrap();
    assert_eq!(corner.ch, '+' as u32);
    let edge = out.iter().find(|d| d.x == 9 && d.y == 0 && d.style == Style::Frame).unwrap();
    assert_eq!(edge.ch, '-' as u32);
}
