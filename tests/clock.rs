use matrix_rain::clock::{is_quit, rest_of_frame, Key, FRAME_MS};

#[test]
fn quit_keys() {
    assert!(is_quit(Key::Char('q'), false));
    assert!(is_quit(Key::Esc, false));
    assert!(is_quit(Key::Char('c'), true));
    assert!(!is_quit(Key::Char('c'), false));
    assert!(!is_quit(Key::Char('x'), true));
    assert!(!is_quit(Key::Other, true));
}

#[test]
fn frame_budget() {
    assert_eq!(FRAME_MS, 16);
    assert_eq!(rest_of_frame(0), 16);
    assert_eq!(rest_of_frame(10), 6);
    assert_eq!(rest_of_frame(16), 0);
    assert_eq!(rest_of_frame(40), 0);
}
