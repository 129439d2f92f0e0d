use rand::Rng;
use vstd::prelude::*;

verus! {

/// Rows of trail behind the head.
pub const TRAIL_LEN: u16 = 10;

/// A respawned head starts in `SPAWN_LOW..0`, above the viewport.
pub const SPAWN_LOW: i32 = -20;

/// Milliseconds per one-row advance are drawn from `SPEED_LOW..SPEED_HIGH`.
pub const SPEED_LOW: u64 = 40;

pub const SPEED_HIGH: u64 = 120;

/// One falling column.
#[derive(Clone, Copy, Debug, PartialEq, Eq, Structural)]
pub struct RainColumn {
    /// Horizontal position, fixed for the run.
    pub x: u16,
    /// Head row; negative while still above the viewport.
    pub head_y: i32,
    /// Milliseconds per one-row advance.
    pub speed: u64,
    /// Offset into the cycling character set.
    pub phase: usize,
}

/// A freshly drawn column start: head above the viewport, speed and phase in range.
pub open spec fn spawned(c: RainColumn, charset_len: int) -> bool {
    &&& SPAWN_LOW <= c.head_y < 0
    &&& SPEED_LOW <= c.speed < SPEED_HIGH
    &&& 0 <= c.phase < charset_len
}

/// The row past which a column respawns.
pub open spec fn exit_row(height: int) -> int {
    height + TRAIL_LEN as int
}

/// A column in its running range: head at most at the exit row, phase in range.
pub open spec fn column_ok(c: RainColumn, height: int, charset_len: int) -> bool {
    &&& SPAWN_LOW <= c.head_y < exit_row(height)
    &&& SPEED_LOW <= c.speed < SPEED_HIGH
    &&& 0 <= c.phase < charset_len
}

/// The column one row further down, its phase rotated by one.
pub open spec fn advanced(c: RainColumn, charset_len: int) -> RainColumn {
    RainColumn { head_y: (c.head_y + 1) as i32, phase: ((c.phase + 1) % charset_len) as usize, ..c }
}

/// Relies on rand's `Rng::gen_range` on the thread-local generator: a value of the
/// half-open range `lo..hi`, which must not be empty (it panics on an empty one).
#[verifier::external_body]
fn random_in(lo: i64, hi: i64) -> (r: i64)
    requires
        lo < hi,
    ensures
        lo <= r < hi,
{
    rand::thread_rng().gen_range(lo..hi)
}

impl RainColumn {
    /// A column at `x` with the given start.
    pub fn new(x: u16, head_y: i32, speed: u64, phase: usize) -> (c: RainColumn)
        ensures
            c == (RainColumn { x, head_y, speed, phase }),
    {
        RainColumn { x, head_y, speed, phase }
    }

    /// A column at `x` with a randomly drawn start.
    pub fn spawn(x: u16, charset_len: usize) -> (c: RainColumn)
        requires
            0 < charset_len <= i64::MAX,
        ensures
            c.x == x,
            spawned(c, charset_len as int),
    {
        let head_y = random_in(SPAWN_LOW as i64, 0) as i32;
        let speed = random_in(SPEED_LOW as i64, SPEED_HIGH as i64) as u64;
        let phase = random_in(0, charset_len as i64) as usize;
        RainColumn { x, head_y, speed, phase }
    }

    /// Whether the column's own timer has run out: `elapsed_ms` since its last advance
    /// has reached its speed.
    pub fn is_due(&self, elapsed_ms: u64) -> (r: bool)
        ensures
            r == (elapsed_ms >= self.speed),
    {
        elapsed_ms >= self.speed
    }

    /// Moves the head one row down and rotates the phase by one.
    pub fn advance(&mut self, charset_len: usize)
        requires
            charset_len > 0,
            old(self).head_y < i32::MAX,
        ensures
            *final(self) == advanced(*old(self), charset_len as int),
    {
        self.head_y = self.head_y + 1;
        self.phase = (self.phase % charset_len + 1) % charset_len;
        let ghost p = old(self).phase as int;
        let ghost n = charset_len as int;
        assert((p % n + 1) % n == (p + 1) % n) by {
            vstd::arithmetic::div_mod::lemma_add_mod_noop(p, 1, n);
            vstd::arithmetic::div_mod::lemma_add_mod_noop(p % n, 1, n);
            vstd::arithmetic::div_mod::lemma_mod_twice(p, n);
        }
    }

    /// Whether the head has run past the bottom of a viewport `height` rows high, trail
    /// included.
    pub fn has_exited(&self, height: u16) -> (r: bool)
        ensures
            r == (self.head_y >= exit_row(height as int)),
    {
        self.head_y >= height as i32 + TRAIL_LEN as i32
    }

    /// Starts the column over with a new head, speed and phase; its position stays.
    pub fn respawn(&mut self, head_y: i32, speed: u64, phase: usize)
        ensures
            *final(self) == (RainColumn { x: old(self).x, head_y, speed, phase }),
    {
        self.head_y = head_y;
        self.speed = speed;
        self.phase = phase;
    }

    /// Starts the column over from a randomly drawn start.
    pub fn respawn_random(&mut self, charset_len: usize)
        requires
            0 < charset_len <= i64::MAX,
        ensures
            final(self).x == old(self).x,
            spawned(*final(self), charset_len as int),
    {
        let fresh = RainColumn::spawn(self.x, charset_len);
        self.respawn(fresh.head_y, fresh.speed, fresh.phase);
    }
}

} // verus!
