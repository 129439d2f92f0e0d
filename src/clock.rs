use vstd::prelude::*;

verus! {

/// Target duration of one frame, in milliseconds (about 60 draws a second).
pub const FRAME_MS: u64 = 16;

/// A key press, as far as the frame loop cares.
#[derive(Clone, Copy, Debug, PartialEq, Eq, Structural)]
pub enum Key {
    Char(char),
    Esc,
    Other,
}

/// The keys that end the run: `q`, Escape, or Control+C.
pub open spec fn is_quit_spec(key: Key, control: bool) -> bool {
    match key {
        Key::Char(c) => c == 'q' || (c == 'c' && control),
        Key::Esc => true,
        Key::Other => false,
    }
}

/// Whether a key press ends the run.
pub fn is_quit(key: Key, control: bool) -> (r: bool)
    ensures
        r == is_quit_spec(key, control),
{
    match key {
        Key::Char(c) => c == 'q' || (c == 'c' && control),
        Key::Esc => true,
        Key::Other => false,
    }
}

/// How long to sleep after a frame whose work took `spent_ms`: the rest of the frame
/// budget, or nothing once it is used up.
pub fn rest_of_frame(spent_ms: u64) -> (r: u64)
    ensures
        spent_ms < FRAME_MS ==> r == FRAME_MS - spent_ms,
        spent_ms >= FRAME_MS ==> r == 0,
{
    if spent_ms < FRAME_MS {
        FRAME_MS - spent_ms
    } else {
        0
    }
}

} // verus!
