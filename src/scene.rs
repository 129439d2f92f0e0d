use vstd::prelude::*;

use crate::color::Rgb;
use crate::column::{advanced, column_ok, exit_row, spawned, RainColumn, SPAWN_LOW, TRAIL_LEN};
use crate::draw::{Draw, Style};
use crate::overlay::{
    cell_at, fresh_overlay, lemma_lock_monotonic, lemma_lock_reveals, locked_after, overlay_draws, overlay_wf,
    suppresses_spec, Layout, Overlay, OverlayView,
};
use crate::palette::{gradient_spec, Palette};

verus! {

/// What the animation is between two frames.
pub struct RainView {
    pub width: int,
    pub height: int,
    pub columns: Seq<RainColumn>,
    pub last_update: Seq<u64>,
    pub overlay: OverlayView,
    pub palette: Seq<Rgb>,
    pub charset: Seq<char>,
    pub frame: int,
    pub bg_shift: int,
    pub bg_tick: int,
    pub scroll_speed: int,
}

pub open spec fn max1(w: int) -> int {
    if w >= 1 {
        w
    } else {
        1
    }
}

/// Where a column at `x` is drawn under horizontal shift `shift`.
pub open spec fn draw_x_spec(x: int, shift: int, width: int) -> int {
    (x + shift) % max1(width)
}

/// The frame counter after one more frame, wrapping at the top of `usize`.
pub open spec fn next_frame(f: int) -> int {
    if f == usize::MAX {
        0
    } else {
        f + 1
    }
}

/// The scroll counter after one more frame, wrapping at the top of `u16`.
pub open spec fn next_bg_tick(t: int) -> int {
    if t == u16::MAX {
        0
    } else {
        t + 1
    }
}

/// The horizontal shift after one more frame: it moves by one every `11 - speed`
/// frames, and never when the speed is 0.
pub open spec fn next_shift(v: RainView) -> int {
    let t = next_bg_tick(v.bg_tick);
    if v.scroll_speed > 0 && t % (11 - v.scroll_speed) == 0 {
        (v.bg_shift + 1) % max1(v.width)
    } else {
        v.bg_shift
    }
}

pub open spec fn elapsed(now: int, last: int) -> int {
    if now >= last {
        now - last
    } else {
        0
    }
}

/// Whether column `i` is due at time `now`: its own timer has reached its speed.
pub open spec fn due(v: RainView, i: int, now: int) -> bool {
    elapsed(now, v.last_update[i] as int) >= v.columns[i].speed
}

/// The character of a trail cell: it cycles with the frame, the column's phase, its
/// position and the offset from the head.
pub open spec fn trail_char(v: RainView, c: RainColumn, frame: int, offset: int) -> char {
    v.charset[(frame + c.phase + c.x + offset) % v.charset.len() as int]
}

/// The draw of the trail cell `offset` rows above the head of `c`, if it is on screen
/// and not owned by the overlay. Its color is the palette at the cell's age
/// `offset / TRAIL_LEN`: the head takes the first stop, the trail fades toward the last.
pub open spec fn trail_cell(v: RainView, c: RainColumn, frame: int, shift: int, offset: int) -> Seq<
    Draw,
> {
    let y = c.head_y - offset;
    let x = draw_x_spec(c.x as int, shift, v.width);
    let color = gradient_spec(v.palette, offset, TRAIL_LEN as int);
    if 0 <= y < v.height && !suppresses_spec(v.overlay, x, y) {
        seq![
            Draw {
                x: x as u16,
                y: y as u16,
                ch: trail_char(v, c, frame, offset) as u32,
                style: if offset == 0 {
                    Style::Head(color)
                } else {
                    Style::Trail(color)
                },
            },
        ]
    } else {
        Seq::empty()
    }
}

/// Draws of the trail cells at offsets `0..n`, head first.
pub open spec fn trail_draws(v: RainView, c: RainColumn, frame: int, shift: int, n: int) -> Seq<
    Draw,
>
    decreases n,
{
    if n <= 0 {
        Seq::empty()
    } else {
        trail_draws(v, c, frame, shift, n - 1) + trail_cell(v, c, frame, shift, n - 1)
    }
}

/// The column as it is drawn and checked for lock-in on this frame, before any respawn.
pub open spec fn moved(v: RainView, i: int) -> RainColumn {
    advanced(v.columns[i], v.charset.len() as int)
}

/// Rain draws of the first `k` columns: the whole trail of each column that is due.
pub open spec fn rain_draws(v: RainView, now: int, k: int) -> Seq<Draw>
    decreases k,
{
    if k <= 0 {
        Seq::empty()
    } else {
        rain_draws(v, now, k - 1) + if due(v, k - 1, now) {
            trail_draws(v, moved(v, k - 1), next_frame(v.frame), next_shift(v), TRAIL_LEN + 1)
        } else {
            Seq::empty()
        }
    }
}

/// Where the head of column `i` lands on this frame, as a viewport position.
pub open spec fn landing_x(v: RainView, i: int) -> int {
    draw_x_spec(v.columns[i].x as int, next_shift(v), v.width)
}

/// The reveal state after the first `k` columns have moved.
pub open spec fn locked_upto(v: RainView, now: int, k: int) -> Seq<Seq<Option<char>>>
    decreases k,
{
    if k <= 0 {
        v.overlay.locked
    } else {
        let prev = locked_upto(v, now, k - 1);
        if due(v, k - 1, now) {
            locked_after(
                OverlayView { locked: prev, ..v.overlay },
                landing_x(v, k - 1),
                moved(v, k - 1).head_y as int,
            )
        } else {
            prev
        }
    }
}

/// The state invariant: one column per viewport column, each in its running range, an
/// overlay over the same viewport, and a shift that stays put while scrolling is off.
pub open spec fn rain_wf(v: RainView) -> bool {
    &&& 0 <= v.width <= u16::MAX
    &&& 0 <= v.height <= u16::MAX
    &&& v.columns.len() == v.width
    &&& v.last_update.len() == v.width
    &&& forall|i: int|
        0 <= i < v.width ==> {
            &&& (#[trigger] v.columns[i]).x == i
            &&& column_ok(v.columns[i], v.height, v.charset.len() as int)
        }
    &&& overlay_wf(v.overlay)
    &&& v.overlay.view_w == v.width
    &&& v.overlay.view_h == v.height
    &&& v.palette.len() >= 1
    &&& 0 < v.charset.len() <= i64::MAX
    &&& 0 <= v.frame <= usize::MAX
    &&& 0 <= v.bg_tick <= u16::MAX
    &&& 0 <= v.bg_shift < max1(v.width)
    &&& 0 <= v.scroll_speed <= 10
    &&& v.scroll_speed == 0 ==> v.bg_shift == 0
}

/// The falling-character animation over one viewport.
pub struct Rain {
    width: u16,
    height: u16,
    columns: Vec<RainColumn>,
    last_update: Vec<u64>,
    overlay: Overlay,
    palette: Palette,
    charset: Vec<char>,
    frame: usize,
    bg_shift: u16,
    bg_tick: u16,
    scroll_speed: u8,
}

impl View for Rain {
    type V = RainView;

    closed spec fn view(&self) -> RainView {
        RainView {
            width: self.width as int,
            height: self.height as int,
            columns: self.columns@,
            last_update: self.last_update@,
            overlay: self.overlay@,
            palette: self.palette@,
            charset: self.charset@,
            frame: self.frame as int,
            bg_shift: self.bg_shift as int,
            bg_tick: self.bg_tick as int,
            scroll_speed: self.scroll_speed as int,
        }
    }
}

} // verus!

verus! {

pub proof fn lemma_locked_upto_wf(v: RainView, now: int, k: int)
    requires
        overlay_wf(v.overlay),
    ensures
        overlay_wf(OverlayView { locked: locked_upto(v, now, k), ..v.overlay }),
    decreases k,
{
    if k > 0 {
        lemma_locked_upto_wf(v, now, k - 1);
        let prev = OverlayView { locked: locked_upto(v, now, k - 1), ..v.overlay };
        if due(v, k - 1, now) {
            crate::overlay::lemma_locked_after_wf(prev, landing_x(v, k - 1), moved(v, k - 1).head_y as int);
            assert(OverlayView { locked: locked_after(prev, landing_x(v, k - 1), moved(v, k - 1).head_y as int), ..prev }
                == OverlayView { locked: locked_upto(v, now, k), ..v.overlay });
        } else {
            assert(prev == OverlayView { locked: locked_upto(v, now, k), ..v.overlay });
        }
    } else {
        assert(v.overlay == OverlayView { locked: locked_upto(v, now, k), ..v.overlay });
    }
}

/// Lock-in is one-way: a cell revealed before a frame keeps its character through
/// every column that moves during that frame.
pub proof fn lemma_frame_keeps_revealed(v: RainView, now: int, k: int, r: int, c: int)
    requires
        overlay_wf(v.overlay),
        0 <= r < v.overlay.target.len(),
        0 <= c < v.overlay.width,
        v.overlay.locked[r][c] is Some,
    ensures
        locked_upto(v, now, k)[r][c] == v.overlay.locked[r][c],
    decreases k,
{
    if k > 0 {
        lemma_frame_keeps_revealed(v, now, k - 1, r, c);
        lemma_locked_upto_wf(v, now, k - 1);
        let prev = OverlayView { locked: locked_upto(v, now, k - 1), ..v.overlay };
        if due(v, k - 1, now) {
            lemma_lock_monotonic(prev, landing_x(v, k - 1), moved(v, k - 1).head_y as int, r, c);
        }
    }
}

/// Lock-in is exact: when a due column's head lands on a non-blank target cell, that
/// cell is revealed with its target character once all `k` columns have moved.
pub proof fn lemma_frame_reveals(v: RainView, now: int, k: int, i: int, r: int, c: int)
    requires
        overlay_wf(v.overlay),
        0 <= i < k,
        due(v, i, now),
        cell_at(v.overlay, landing_x(v, i), moved(v, i).head_y as int) == Some((r, c)),
        v.overlay.target[r][c] != ' ',
    ensures
        locked_upto(v, now, k)[r][c] == Some(v.overlay.target[r][c]),
    decreases k,
{
    lemma_locked_upto_wf(v, now, k - 1);
    let prev = OverlayView { locked: locked_upto(v, now, k - 1), ..v.overlay };
    if i == k - 1 {
        lemma_lock_reveals(prev, landing_x(v, i), moved(v, i).head_y as int, r, c);
    } else {
        lemma_frame_reveals(v, now, k - 1, i, r, c);
        if due(v, k - 1, now) {
            lemma_lock_monotonic(prev, landing_x(v, k - 1), moved(v, k - 1).head_y as int, r, c);
        }
    }
}

} // verus!

verus! {

/// What one frame does to column `i`: a column that is not due stays as it was; a due
/// one moves one row down, and starts over above the viewport (new head, speed and
/// phase, same position) once its head has passed the exit row.
pub open spec fn column_step(old: RainView, new: RainView, i: int, now: int) -> bool {
    if due(old, i, now) {
        &&& new.last_update[i] == now
        &&& if moved(old, i).head_y >= exit_row(old.height) {
            &&& new.columns[i].x == old.columns[i].x
            &&& spawned(new.columns[i], old.charset.len() as int)
        } else {
            new.columns[i] == moved(old, i)
        }
    } else {
        &&& new.columns[i] == old.columns[i]
        &&& new.last_update[i] == old.last_update[i]
    }
}

/// Two states that differ at most in reveal state, columns, timers and counters.
pub open spec fn same_stage(a: RainView, b: RainView) -> bool {
    &&& a.width == b.width
    &&& a.height == b.height
    &&& a.palette == b.palette
    &&& a.charset == b.charset
    &&& b.overlay == OverlayView { locked: b.overlay.locked, ..a.overlay }
}

proof fn lemma_trail_same(a: RainView, b: RainView, c: RainColumn, frame: int, shift: int, n: int)
    requires
        same_stage(a, b),
    ensures
        trail_draws(a, c, frame, shift, n) == trail_draws(b, c, frame, shift, n),
    decreases n,
{
    if n > 0 {
        lemma_trail_same(a, b, c, frame, shift, n - 1);
        assert(trail_cell(a, c, frame, shift, n - 1) == trail_cell(b, c, frame, shift, n - 1));
    }
}

/// The standard rain characters: latin letters, both cases, then digits.
pub fn default_charset() -> (r: Vec<char>)
    ensures
        r@ == "ABCDEFGHIJKLMNOPQRSTUVWXYZabcdefghijklmnopqrstuvwxyz0123456789"@,
        r@.len() == 62,
{
    let text = "ABCDEFGHIJKLMNOPQRSTUVWXYZabcdefghijklmnopqrstuvwxyz0123456789";
    proof {
        reveal_strlit("ABCDEFGHIJKLMNOPQRSTUVWXYZabcdefghijklmnopqrstuvwxyz0123456789");
    }
    let n = text.unicode_len();
    let mut r: Vec<char> = Vec::new();
    let mut i: usize = 0;
    while i < n
        invariant
            n == text@.len(),
            i <= n,
            r@ == text@.subrange(0, i as int),
        decreases n - i,
    {
        r.push(text.get_char(i));
        assert(r@ =~= text@.subrange(0, i + 1));
        i = i + 1;
    }
    assert(r@ =~= text@);
    r
}

impl Rain {
    pub open spec fn wf(&self) -> bool {
        rain_wf(self@)
    }

    /// A fresh animation over a `width` x `height` viewport: one column per viewport
    /// column, each with a random start and its timer set to `now_ms`, and the target
    /// `lines` all hidden.
    pub fn new(
        width: u16,
        height: u16,
        lines: &Vec<Vec<char>>,
        layout: Layout,
        palette: Palette,
        charset: Vec<char>,
        scroll_speed: u8,
        now_ms: u64,
    ) -> (r: Rain)
        requires
            palette.wf(),
            0 < charset@.len() <= i64::MAX,
            scroll_speed <= 10,
        ensures
            r.wf(),
            r@.width == width,
            r@.height == height,
            r@.palette == palette@,
            r@.charset == charset@,
            r@.scroll_speed == scroll_speed,
            r@.frame == 0,
            r@.bg_shift == 0,
            r@.bg_tick == 0,
            fresh_overlay(r@.overlay, lines@.map_values(|l: Vec<char>| l@), width as int, height as int, layout),
            forall|i: int| 0 <= i < width ==> (#[trigger] r@.last_update[i]) == now_ms,
            forall|i: int| 0 <= i < width ==> spawned(#[trigger] r@.columns[i], charset@.len() as int),
    {
        let overlay = Overlay::new(lines, width, height, layout);
        let n = charset.len();
        let mut columns: Vec<RainColumn> = Vec::new();
        let mut last_update: Vec<u64> = Vec::new();
        let mut x: u16 = 0;
        while x < width
            invariant
                n == charset@.len(),
                0 < n <= i64::MAX,
                x <= width,
                columns@.len() == x,
                last_update@.len() == x,
                forall|i: int| 0 <= i < x ==> (#[trigger] columns@[i]).x == i && spawned(columns@[i], n as int),
                forall|i: int| 0 <= i < x ==> (#[trigger] last_update@[i]) == now_ms,
            decreases width - x,
        {
            columns.push(RainColumn::spawn(x, n));
            last_update.push(now_ms);
            x = x + 1;
        }
        Rain {
            width,
            height,
            columns,
            last_update,
            overlay,
            palette,
            charset,
            frame: 0,
            bg_shift: 0,
            bg_tick: 0,
            scroll_speed,
        }
    }

    /// Where a column at `x` is drawn under the current horizontal shift.
    pub fn draw_x(&self, x: u16) -> (r: u16)
        requires
            self.wf(),
        ensures
            r == draw_x_spec(x as int, self@.bg_shift, self@.width),
    {
        let w: u32 = if self.width >= 1 {
            self.width as u32
        } else {
            1
        };
        ((x as u32 + self.bg_shift as u32) % w) as u16
    }

    /// Advances the animation by one frame at time `now_ms` and returns what to draw, in
    /// order: the trail of every column that is due, then the overlay on top.
    pub fn tick(&mut self, now_ms: u64) -> (out: Vec<Draw>)
        requires
            old(self).wf(),
        ensures
            final(self).wf(),
            ticked(old(self)@, final(self)@, now_ms as int),
            same_stage(old(self)@, final(self)@),
            final(self)@.scroll_speed == old(self)@.scroll_speed,
            final(self)@.frame == next_frame(old(self)@.frame),
            final(self)@.bg_tick == next_bg_tick(old(self)@.bg_tick),
            final(self)@.bg_shift == next_shift(old(self)@),
            final(self)@.overlay.locked == locked_upto(old(self)@, now_ms as int, old(self)@.width),
            forall|i: int|
                0 <= i < old(self)@.width ==> #[trigger] column_step(
                    old(self)@,
                    final(self)@,
                    i,
                    now_ms as int,
                ),
            out@ == rain_draws(old(self)@, now_ms as int, old(self)@.width) + overlay_draws(
                final(self)@.overlay,
            ),
    {
        let ghost v = self@;
        self.frame = if self.frame == usize::MAX {
            0
        } else {
            self.frame + 1
        };
        self.bg_tick = if self.bg_tick == u16::MAX {
            0
        } else {
            self.bg_tick + 1
        };
        if self.scroll_speed > 0 && self.bg_tick % (11 - self.scroll_speed as u16) == 0 {
            let w: u16 = if self.width >= 1 {
                self.width
            } else {
                1
            };
            self.bg_shift = ((self.bg_shift as u32 + 1) % w as u32) as u16;
        }
        let n = self.charset.len();
        let mut out: Vec<Draw> = Vec::new();
        let mut i: usize = 0;
        while i < self.columns.len()
            invariant
                rain_wf(v),
                same_stage(v, self@),
                self@.scroll_speed == v.scroll_speed,
                self@.frame == next_frame(v.frame),
                self@.bg_tick == next_bg_tick(v.bg_tick),
                self@.bg_shift == next_shift(v),
                0 <= self@.bg_shift < max1(v.width),
                v.scroll_speed == 0 ==> self@.bg_shift == 0,
                n == v.charset.len(),
                self@.columns.len() == v.width,
                self@.last_update.len() == v.width,
                i <= v.width,
                self@.overlay.locked == locked_upto(v, now_ms as int, i as int),
                overlay_wf(self@.overlay),
                out@ == rain_draws(v, now_ms as int, i as int),
                forall|j: int| 0 <= j < i ==> #[trigger] column_step(v, self@, j, now_ms as int),
                forall|j: int| 0 <= j < i ==> (#[trigger] self@.columns[j]).x == j && column_ok(
                    self@.columns[j],
                    v.height,
                    n as int,
                ),
                forall|j: int|
                    i <= j < v.width ==> #[trigger] self@.columns[j] == v.columns[j]
                        && self@.last_update[j] == v.last_update[j],
            decreases v.width - i,
        {
            let col = self.columns[i];
            let last = self.last_update[i];
            let el: u64 = if now_ms >= last {
                now_ms - last
            } else {
                0
            };
            assert(col == v.columns[i as int]);
            let ghost before = self@;
            if col.is_due(el) {
                self.last_update[i] = now_ms;
                let mut c = col;
                c.advance(n);
                assert(c == moved(v, i as int));
                let ghost mid = self@;
                self.draw_trail(c, &mut out);
                proof {
                    lemma_trail_same(v, mid, c, mid.frame, mid.bg_shift, TRAIL_LEN + 1);
                }
                let dx = self.draw_x(c.x);
                assert(dx == landing_x(v, i as int));
                self.overlay.try_lock(dx, c.head_y);
                if c.has_exited(self.height) {
                    c.respawn_random(n);
                }
                self.columns[i] = c;
                assert(out@ =~= rain_draws(v, now_ms as int, i + 1));
            } else {
                assert(out@ =~= rain_draws(v, now_ms as int, i + 1));
            }
            assert(self@.overlay.locked == locked_upto(v, now_ms as int, i + 1));
            assert(column_step(v, self@, i as int, now_ms as int));
            assert forall|j: int| 0 <= j < i implies #[trigger] column_step(v, self@, j, now_ms as int) by {
                assert(column_step(v, before, j, now_ms as int));
                assert(self@.columns[j] == before.columns[j]);
                assert(self@.last_update[j] == before.last_update[j]);
            }
            assert forall|j: int| i < j < v.width implies #[trigger] self@.columns[j] == v.columns[j]
                && self@.last_update[j] == v.last_update[j] by {
                assert(before.columns[j] == v.columns[j]);
                assert(self@.columns[j] == before.columns[j]);
                assert(self@.last_update[j] == before.last_update[j]);
            }
            i = i + 1;
        }
        self.overlay.draw(&mut out);
        out
    }

    fn draw_trail(&self, c: RainColumn, out: &mut Vec<Draw>)
        requires
            self.wf(),
            c.x < self@.width,
            c.phase < self@.charset.len(),
            SPAWN_LOW <= c.head_y <= exit_row(self@.height),
        ensures
            final(out)@ == old(out)@ + trail_draws(self@, c, self@.frame, self@.bg_shift, TRAIL_LEN + 1),
    {
        let ghost v = self@;
        let ghost start = out@;
        let n = self.charset.len();
        let x = self.draw_x(c.x);
        let mut offset: u16 = 0;
        while offset <= TRAIL_LEN
            invariant
                self.wf(),
                v == self@,
                n == v.charset.len(),
                x == draw_x_spec(c.x as int, v.bg_shift, v.width),
                c.x < v.width,
                c.phase < n,
                SPAWN_LOW <= c.head_y <= exit_row(v.height),
                offset <= TRAIL_LEN + 1,
                out@ == start + trail_draws(v, c, v.frame, v.bg_shift, offset as int),
            decreases TRAIL_LEN + 1 - offset,
        {
            let y: i32 = c.head_y - offset as i32;
            if 0 <= y && y < self.height as i32 && !self.overlay.suppresses(x, y as u16) {
                let color = self.palette.gradient_color(offset as u32, TRAIL_LEN as u32);
                let sum: u128 = (self.frame % n) as u128 + c.phase as u128 + c.x as u128
                    + offset as u128;
                let k: usize = (sum % n as u128) as usize;
                proof {
                    let b = c.phase + c.x + offset;
                    vstd::arithmetic::div_mod::lemma_add_mod_noop(v.frame, b, n as int);
                    vstd::arithmetic::div_mod::lemma_add_mod_noop(v.frame % n as int, b, n as int);
                    vstd::arithmetic::div_mod::lemma_mod_twice(v.frame, n as int);
                }
                let style = if offset == 0 {
                    Style::Head(color)
                } else {
                    Style::Trail(color)
                };
                let d = Draw { x, y: y as u16, ch: self.charset[k] as u32, style };
                assert(trail_cell(v, c, v.frame, v.bg_shift, offset as int) =~= seq![d]);
                out.push(d);
            } else {
                assert(trail_cell(v, c, v.frame, v.bg_shift, offset as int) =~= Seq::<Draw>::empty());
            }
            assert(out@ =~= start + trail_draws(v, c, v.frame, v.bg_shift, offset + 1));
            offset = offset + 1;
        }
    }
}

} // verus!

verus! {

/// With scrolling off the horizontal shift stays 0 from frame to frame, so every column
/// is drawn at its own position.
pub proof fn lemma_no_scroll(v: RainView, x: int)
    requires
        rain_wf(v),
        v.scroll_speed == 0,
        0 <= x < v.width,
    ensures
        next_shift(v) == 0,
        draw_x_spec(x, next_shift(v), v.width) == x,
{
    vstd::arithmetic::div_mod::lemma_small_mod(x as nat, v.width as nat);
}

} // verus!

verus! {

impl Rain {
    /// The target overlay.
    pub fn overlay(&self) -> (r: &Overlay)
        ensures
            r@ == self@.overlay,
    {
        &self.overlay
    }

    /// The columns, left to right.
    pub fn columns(&self) -> (r: &Vec<RainColumn>)
        ensures
            r@ == self@.columns,
    {
        &self.columns
    }

    /// The current horizontal shift of the background.
    pub fn bg_shift(&self) -> (r: u16)
        ensures
            r == self@.bg_shift,
    {
        self.bg_shift
    }

    /// Frames drawn so far, wrapping at the top of `usize`.
    pub fn frame(&self) -> (r: usize)
        ensures
            r == self@.frame,
    {
        self.frame
    }

    /// The viewport size.
    pub fn size(&self) -> (r: (u16, u16))
        ensures
            r.0 == self@.width,
            r.1 == self@.height,
    {
        (self.width, self.height)
    }
}

} // verus!

verus! {

/// With scrolling off, a due column whose head lands on a non-blank target cell
/// directly below it reveals that cell with its target character by the end of the
/// frame.
pub proof fn lemma_column_reveals_below(v: RainView, now: int, i: int, r: int, c: int)
    requires
        rain_wf(v),
        v.scroll_speed == 0,
        0 <= i < v.width,
        due(v, i, now),
        0 <= r < v.overlay.target.len(),
        0 <= c < v.overlay.width,
        v.overlay.start_x + c == i,
        v.overlay.start_y + r == moved(v, i).head_y,
        v.overlay.target[r][c] != ' ',
    ensures
        locked_upto(v, now, v.width)[r][c] == Some(v.overlay.target[r][c]),
{
    lemma_no_scroll(v, i);
    assert(v.columns[i].x == i);
    assert(landing_x(v, i) == i);
    assert(cell_at(v.overlay, landing_x(v, i), moved(v, i).head_y as int) == Some((r, c)));
    lemma_frame_reveals(v, now, v.width, i, r, c);
}

} // verus!

verus! {

/// One frame at time `now` leads from `a` to `b`: both are well formed, the stage is
/// the same, and the reveal state is what the moving columns leave.
pub open spec fn ticked(a: RainView, b: RainView, now: int) -> bool {
    &&& rain_wf(a)
    &&& rain_wf(b)
    &&& same_stage(a, b)
    &&& b.scroll_speed == a.scroll_speed
    &&& b.bg_shift == next_shift(a)
    &&& b.overlay.locked == locked_upto(a, now, a.width)
}

/// A run of frames: `states[k + 1]` follows `states[k]` by one frame at `times[k]`.
pub open spec fn is_run(states: Seq<RainView>, times: Seq<int>) -> bool {
    &&& states.len() == times.len() + 1
    &&& rain_wf(states[0])
    &&& forall|k: int| 0 <= k < times.len() ==> ticked(#[trigger] states[k], states[k + 1], times[k])
}

/// Every state of a run has the first state's stage: viewport, palette, characters and
/// target placement.
pub proof fn lemma_run_stage(states: Seq<RainView>, times: Seq<int>, k: int)
    requires
        is_run(states, times),
        0 <= k < states.len(),
    ensures
        same_stage(states[0], states[k]),
        rain_wf(states[k]),
    decreases k,
{
    if k == 0 {
        assert(states[0].overlay == OverlayView { locked: states[0].overlay.locked, ..states[0].overlay });
    } else {
        lemma_run_stage(states, times, k - 1);
        assert(ticked(states[k - 1], states[k], times[k - 1]));
    }
}

/// Lock-in is one-way over any run: a cell revealed in the first state holds the same
/// character in every later state.
pub proof fn lemma_run_keeps_revealed(states: Seq<RainView>, times: Seq<int>, r: int, c: int, k: int)
    requires
        is_run(states, times),
        0 <= r < states[0].overlay.target.len(),
        0 <= c < states[0].overlay.width,
        states[0].overlay.locked[r][c] is Some,
        0 <= k < states.len(),
    ensures
        states[k].overlay.locked[r][c] == states[0].overlay.locked[r][c],
    decreases k,
{
    if k > 0 {
        lemma_run_keeps_revealed(states, times, r, c, k - 1);
        lemma_run_stage(states, times, k - 1);
        assert(ticked(states[k - 1], states[k], times[k - 1]));
        lemma_frame_keeps_revealed(states[k - 1], times[k - 1], states[k - 1].width, r, c);
    }
}

/// With scrolling off, every state of a run draws each column at its own position.
pub proof fn lemma_run_no_scroll(states: Seq<RainView>, times: Seq<int>, k: int, x: int)
    requires
        is_run(states, times),
        states[0].scroll_speed == 0,
        0 <= k < states.len(),
        0 <= x < states[0].width,
    ensures
        states[k].scroll_speed == 0,
        states[k].bg_shift == 0,
        draw_x_spec(x, states[k].bg_shift, states[k].width) == x,
    decreases k,
{
    lemma_run_stage(states, times, k);
    if k > 0 {
        lemma_run_no_scroll(states, times, k - 1, x);
        assert(ticked(states[k - 1], states[k], times[k - 1]));
    }
    vstd::arithmetic::div_mod::lemma_small_mod(x as nat, states[k].width as nat);
}

/// Whether, in some frame of the run, a due column's head lands on target cell `(r, c)`.
pub open spec fn hit_in_run(states: Seq<RainView>, times: Seq<int>, r: int, c: int) -> bool {
    exists|k: int, i: int|
        0 <= k < times.len() && 0 <= i < states[k].width && #[trigger] due(states[k], i, times[k])
            && cell_at(states[k].overlay, landing_x(states[k], i), moved(states[k], i).head_y as int)
            == Some((r, c))
}

/// Over a run, every non-blank target cell that some due column's head has landed on is
/// revealed with its target character at the end.
pub proof fn lemma_run_reveals(states: Seq<RainView>, times: Seq<int>, r: int, c: int)
    requires
        is_run(states, times),
        0 <= r < states[0].overlay.target.len(),
        0 <= c < states[0].overlay.width,
        states[0].overlay.target[r][c] != ' ',
        hit_in_run(states, times, r, c),
    ensures
        states[states.len() - 1].overlay.locked[r][c] == Some(states[0].overlay.target[r][c]),
{
    let (k, i) = choose|k: int, i: int|
        0 <= k < times.len() && 0 <= i < states[k].width && #[trigger] due(states[k], i, times[k])
            && cell_at(states[k].overlay, landing_x(states[k], i), moved(states[k], i).head_y as int)
            == Some((r, c));
    lemma_run_stage(states, times, k);
    assert(ticked(states[k], states[k + 1], times[k]));
    lemma_frame_reveals(states[k], times[k], states[k].width, i, r, c);
    let rest = states.subrange(k + 1, states.len() as int);
    let rest_times = times.subrange(k + 1, times.len() as int);
    assert(is_run(rest, rest_times)) by {
        assert forall|m: int| 0 <= m < rest_times.len() implies ticked(
            #[trigger] rest[m],
            rest[m + 1],
            rest_times[m],
        ) by {
            assert(ticked(states[k + 1 + m], states[k + 1 + m + 1], times[k + 1 + m]));
        }
    }
    lemma_run_stage(states, times, k + 1);
    lemma_run_keeps_revealed(rest, rest_times, r, c, rest.len() - 1);
}

} // verus!
