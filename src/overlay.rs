use vstd::prelude::*;

use crate::draw::{Draw, Style};

verus! {

/// How the target is laid out in the viewport.
#[derive(Clone, Copy, Debug, PartialEq, Eq, Structural)]
pub enum Layout {
    /// A block of rows (the 3x5 font), centered both ways and framed.
    Block,
    /// A single plain line, centered horizontally one row above the bottom, unframed.
    Line,
}

/// A rectangle of cells, both corners included.
#[derive(Clone, Copy, Debug, PartialEq, Eq, Structural)]
pub struct Rect {
    pub x0: u16,
    pub y0: u16,
    pub x1: u16,
    pub y1: u16,
}

impl Rect {
    pub open spec fn has(self, x: int, y: int) -> bool {
        self.x0 <= x <= self.x1 && self.y0 <= y <= self.y1
    }

    pub fn contains(&self, x: u16, y: u16) -> (r: bool)
        ensures
            r == self.has(x as int, y as int),
    {
        self.x0 <= x && x <= self.x1 && self.y0 <= y && y <= self.y1
    }
}

pub open spec fn sat_sub(a: int, b: int) -> int {
    if a >= b {
        a - b
    } else {
        0
    }
}

pub open spec fn min_int(a: int, b: int) -> int {
    if a <= b {
        a
    } else {
        b
    }
}

/// Left column of a target `tw` cells wide in a viewport `w` cells wide: centered when
/// it fits, flush left otherwise.
pub open spec fn start_x_spec(w: int, tw: int) -> int {
    if tw < w {
        (w - tw) / 2
    } else {
        0
    }
}

/// Top row of a target `th` rows high in a viewport `h` rows high.
pub open spec fn start_y_spec(h: int, th: int, layout: Layout) -> int {
    match layout {
        Layout::Block => min_int(sat_sub(h, th) / 2, sat_sub(h, 1)),
        Layout::Line => sat_sub(h, 2),
    }
}

/// The frame: one cell around the target on each side, clipped to the viewport.
pub open spec fn border_spec(w: int, h: int, tw: int, th: int, layout: Layout) -> Rect {
    let sx = start_x_spec(w, tw);
    let sy = start_y_spec(h, th, layout);
    Rect {
        x0: sat_sub(sx, 1) as u16,
        y0: sat_sub(sy, 1) as u16,
        x1: min_int(sx + tw, sat_sub(w, 1)) as u16,
        y1: min_int(sy + th, sat_sub(h, 1)) as u16,
    }
}

/// Where a target of `tw` x `th` cells goes in a `w` x `h` viewport: its top-left cell
/// and its frame.
pub fn place(w: u16, h: u16, tw: usize, th: usize, layout: Layout) -> (r: (u16, u16, Rect))
    ensures
        r.0 as int == start_x_spec(w as int, tw as int),
        r.1 as int == start_y_spec(h as int, th as int, layout),
        r.2 == border_spec(w as int, h as int, tw as int, th as int, layout),
{
    let sx: u16 = if tw < w as usize {
        ((w as usize - tw) / 2) as u16
    } else {
        0
    };
    let max_y: u16 = if h >= 1 {
        h - 1
    } else {
        0
    };
    let max_x: u16 = if w >= 1 {
        w - 1
    } else {
        0
    };
    let sy: u16 = match layout {
        Layout::Block => {
            let free: usize = if th <= h as usize {
                h as usize - th
            } else {
                0
            };
            let mid = (free / 2) as u16;
            if mid <= max_y {
                mid
            } else {
                max_y
            }
        },
        Layout::Line => if h >= 2 {
            h - 2
        } else {
            0
        },
    };
    let x0: u16 = if sx >= 1 {
        sx - 1
    } else {
        0
    };
    let y0: u16 = if sy >= 1 {
        sy - 1
    } else {
        0
    };
    let x1: u16 = if sx <= max_x && tw <= (max_x - sx) as usize {
        (sx as usize + tw) as u16
    } else {
        max_x
    };
    let y1: u16 = if sy <= max_y && th <= (max_y - sy) as usize {
        (sy as usize + th) as u16
    } else {
        max_y
    };
    (sx, sy, Rect { x0, y0, x1, y1 })
}

} // verus!

verus! {

/// What an overlay is: the target cells (rows padded with blanks to one width), the
/// reveal state of each cell, and where it stands in the viewport.
pub struct OverlayView {
    pub target: Seq<Seq<char>>,
    pub locked: Seq<Seq<Option<char>>>,
    pub width: int,
    pub start_x: int,
    pub start_y: int,
    pub border: Rect,
    pub framed: bool,
    pub view_w: int,
    pub view_h: int,
}

/// The cell under viewport position `(x, y)`, as (row, column) of the target.
pub open spec fn cell_at(v: OverlayView, x: int, y: int) -> Option<(int, int)> {
    if v.start_x <= x < v.start_x + v.width && v.start_y <= y < v.start_y + v.target.len() {
        Some((y - v.start_y, x - v.start_x))
    } else {
        None
    }
}

/// The reveal state after a column head lands at `(x, y)`: the cell there, if any,
/// becomes revealed with its target character when it is non-blank and still hidden.
pub open spec fn locked_after(v: OverlayView, x: int, y: int) -> Seq<Seq<Option<char>>> {
    match cell_at(v, x, y) {
        Some((r, c)) => if v.locked[r][c] is None && v.target[r][c] != ' ' {
            v.locked.update(r, v.locked[r].update(c, Some(v.target[r][c])))
        } else {
            v.locked
        },
        None => v.locked,
    }
}

/// Whether rain at `(x, y)` is hidden because the overlay owns that cell: inside the
/// frame when framed, else inside the target's rectangle.
pub open spec fn suppresses_spec(v: OverlayView, x: int, y: int) -> bool {
    if v.framed {
        v.border.has(x, y)
    } else {
        cell_at(v, x, y) is Some
    }
}

/// The rows of `lines` padded with blanks to `w` cells.
pub open spec fn padded(lines: Seq<Seq<char>>, w: int) -> Seq<Seq<char>> {
    Seq::new(
        lines.len(),
        |r: int| lines[r] + Seq::new((w - lines[r].len()) as nat, |i: int| ' '),
    )
}

pub open spec fn widest(lines: Seq<Seq<char>>) -> int
    decreases lines.len(),
{
    if lines.len() == 0 {
        0
    } else {
        let w = widest(lines.drop_last());
        if lines.last().len() > w {
            lines.last().len() as int
        } else {
            w
        }
    }
}

pub proof fn lemma_widest(lines: Seq<Seq<char>>)
    ensures
        widest(lines) >= 0,
        forall|r: int| 0 <= r < lines.len() ==> (#[trigger] lines[r]).len() <= widest(lines),
        lines.len() > 0 ==> exists|r: int| 0 <= r < lines.len() && lines[r].len() == widest(lines),
    decreases lines.len(),
{
    if lines.len() > 0 {
        lemma_widest(lines.drop_last());
        if lines.len() > 1 && widest(lines) == widest(lines.drop_last()) {
            let r = choose|r: int|
                0 <= r < lines.len() - 1 && lines.drop_last()[r].len() == widest(lines.drop_last());
            assert(lines[r].len() == widest(lines));
        }
        assert forall|r: int| 0 <= r < lines.len() implies (#[trigger] lines[r]).len() <= widest(
            lines,
        ) by {
            if r < lines.len() - 1 {
                assert(lines[r] == lines.drop_last()[r]);
            }
        }
    }
}

/// Rows the target takes up when placed: at least one, so an empty target is still
/// placed as a single row.
pub open spec fn placed_rows(n: int) -> int {
    if n >= 1 {
        n
    } else {
        1
    }
}

/// An overlay just built from `lines` over a `w` x `h` viewport: rows padded to the
/// widest line, every cell hidden, placed and framed as the layout says.
pub open spec fn fresh_overlay(o: OverlayView, lines: Seq<Seq<char>>, w: int, h: int, layout: Layout) -> bool {
    &&& o.width == widest(lines)
    &&& o.target == padded(lines, o.width)
    &&& o.locked == all_hidden(o.target)
    &&& o.start_x == start_x_spec(w, o.width)
    &&& o.start_y == start_y_spec(h, placed_rows(lines.len() as int), layout)
    &&& o.border == border_spec(w, h, o.width, placed_rows(lines.len() as int), layout)
    &&& o.framed == (layout == Layout::Block)
    &&& o.view_w == w
    &&& o.view_h == h
}

pub open spec fn all_hidden(target: Seq<Seq<char>>) -> Seq<Seq<Option<char>>> {
    Seq::new(target.len(), |r: int| Seq::new(target[r].len(), |c: int| None::<char>))
}

/// Every row is `width` cells wide, and a cell is revealed only with its own non-blank
/// target character.
pub open spec fn overlay_wf(v: OverlayView) -> bool {
    &&& v.locked.len() == v.target.len()
    &&& forall|r: int|
        0 <= r < v.target.len() ==> {
            &&& (#[trigger] v.target[r]).len() == v.width
            &&& v.locked[r].len() == v.width
        }
    &&& forall|r: int, c: int|
        0 <= r < v.target.len() && 0 <= c < v.width ==> #[trigger] v.locked[r][c] is None || (
        v.locked[r][c] == Some(v.target[r][c]) && v.target[r][c] != ' ')
}

/// Once revealed, a cell keeps its character whatever head lands next.
pub proof fn lemma_lock_monotonic(v: OverlayView, x: int, y: int, r: int, c: int)
    requires
        overlay_wf(v),
        0 <= r < v.target.len(),
        0 <= c < v.width,
        v.locked[r][c] is Some,
    ensures
        locked_after(v, x, y)[r][c] == v.locked[r][c],
{
    assert(v.target[r].len() == v.width);
}

/// Revealing a cell keeps the overlay well formed.
pub proof fn lemma_locked_after_wf(v: OverlayView, x: int, y: int)
    requires
        overlay_wf(v),
    ensures
        overlay_wf(OverlayView { locked: locked_after(v, x, y), ..v }),
{
    let w = OverlayView { locked: locked_after(v, x, y), ..v };
    if let Some((r, c)) = cell_at(v, x, y) {
        assert(v.target[r].len() == v.width);
        assert forall|i: int| 0 <= i < w.target.len() implies {
            &&& (#[trigger] w.target[i]).len() == w.width
            &&& w.locked[i].len() == w.width
        } by {
            assert(v.target[i].len() == v.width);
        }
        assert forall|i: int, j: int|
            0 <= i < w.target.len() && 0 <= j < w.width implies #[trigger] w.locked[i][j] is None || (
            w.locked[i][j] == Some(w.target[i][j]) && w.target[i][j] != ' ') by {
            assert(v.target[i].len() == v.width);
            if i != r || j != c {
                assert(w.locked[i][j] == v.locked[i][j]);
            }
        }
    }
}

/// A head landing on a non-blank cell leaves it revealed with its target character.
pub proof fn lemma_lock_reveals(v: OverlayView, x: int, y: int, r: int, c: int)
    requires
        overlay_wf(v),
        cell_at(v, x, y) == Some((r, c)),
        v.target[r][c] != ' ',
    ensures
        locked_after(v, x, y)[r][c] == Some(v.target[r][c]),
{
    assert(v.target[r].len() == v.width);
}

/// The target cells and their reveal state over a viewport.
pub struct Overlay {
    target: Vec<Vec<char>>,
    locked: Vec<Vec<Option<char>>>,
    width: usize,
    start_x: u16,
    start_y: u16,
    border: Rect,
    framed: bool,
    view_w: u16,
    view_h: u16,
}

impl View for Overlay {
    type V = OverlayView;

    closed spec fn view(&self) -> OverlayView {
        OverlayView {
            target: self.target@.map_values(|row: Vec<char>| row@),
            locked: self.locked@.map_values(|row: Vec<Option<char>>| row@),
            width: self.width as int,
            start_x: self.start_x as int,
            start_y: self.start_y as int,
            border: self.border,
            framed: self.framed,
            view_w: self.view_w as int,
            view_h: self.view_h as int,
        }
    }
}

impl Overlay {
    pub open spec fn wf(&self) -> bool {
        overlay_wf(self@)
    }

    /// An overlay of the given rows, all hidden, placed in a `view_w` x `view_h`
    /// viewport.
    pub fn new(lines: &Vec<Vec<char>>, view_w: u16, view_h: u16, layout: Layout) -> (o: Overlay)
        ensures
            o.wf(),
            fresh_overlay(o@, lines@.map_values(|l: Vec<char>| l@), view_w as int, view_h as int, layout),
    {
        let ghost ls = lines@.map_values(|l: Vec<char>| l@);
        let mut width: usize = 0;
        let mut k: usize = 0;
        while k < lines.len()
            invariant
                k <= lines@.len(),
                ls == lines@.map_values(|l: Vec<char>| l@),
                width == widest(ls.subrange(0, k as int)),
            decreases lines@.len() - k,
        {
            assert(ls.subrange(0, k + 1).drop_last() =~= ls.subrange(0, k as int));
            if lines[k].len() > width {
                width = lines[k].len();
            }
            k = k + 1;
        }
        assert(ls.subrange(0, k as int) =~= ls);
        proof {
            lemma_widest(ls);
        }
        let mut target: Vec<Vec<char>> = Vec::new();
        let mut locked: Vec<Vec<Option<char>>> = Vec::new();
        let mut r: usize = 0;
        while r < lines.len()
            invariant
                r <= lines@.len(),
                ls == lines@.map_values(|l: Vec<char>| l@),
                forall|i: int| 0 <= i < ls.len() ==> (#[trigger] ls[i]).len() <= width,
                target@.len() == r,
                locked@.len() == r,
                forall|i: int|
                    0 <= i < r ==> (#[trigger] target@[i])@ == padded(ls, width as int)[i],
                forall|i: int|
                    0 <= i < r ==> (#[trigger] locked@[i])@ == all_hidden(padded(ls, width as int))[i],
            decreases lines@.len() - r,
        {
            let mut row: Vec<char> = Vec::new();
            let mut marks: Vec<Option<char>> = Vec::new();
            let mut c: usize = 0;
            assert(ls[r as int] == lines@[r as int]@);
            while c < width
                invariant
                    c <= width,
                    r < lines@.len(),
                    ls[r as int] == lines@[r as int]@,
                    ls[r as int].len() <= width,
                    row@.len() == c,
                    marks@.len() == c,
                    forall|j: int|
                        0 <= j < c ==> #[trigger] row@[j] == (if j < ls[r as int].len() {
                            ls[r as int][j]
                        } else {
                            ' '
                        }),
                    forall|j: int| 0 <= j < c ==> #[trigger] marks@[j] is None,
                decreases width - c,
            {
                if c < lines[r].len() {
                    row.push(lines[r][c]);
                } else {
                    row.push(' ');
                }
                marks.push(None);
                c = c + 1;
            }
            assert(row@ =~= padded(ls, width as int)[r as int]);
            assert(marks@ =~= all_hidden(padded(ls, width as int))[r as int]);
            target.push(row);
            locked.push(marks);
            r = r + 1;
        }
        let rows: usize = if lines.len() >= 1 {
            lines.len()
        } else {
            1
        };
        let (sx, sy, border) = place(view_w, view_h, width, rows, layout);
        let o = Overlay {
            target,
            locked,
            width,
            start_x: sx,
            start_y: sy,
            border,
            framed: match layout {
                Layout::Block => true,
                Layout::Line => false,
            },
            view_w,
            view_h,
        };
        assert(o@.target =~= padded(ls, width as int));
        assert(o@.locked =~= all_hidden(o@.target));
        o
    }
}

} // verus!

verus! {

impl Overlay {
    /// Reveals the cell under a column head at `(x, y)` when it is non-blank and still
    /// hidden; nothing else changes.
    pub fn try_lock(&mut self, x: u16, y: i32)
        requires
            old(self).wf(),
        ensures
            final(self).wf(),
            final(self)@ == (OverlayView { locked: locked_after(old(self)@, x as int, y as int), ..old(self)@ }),
    {
        let ghost v = self@;
        if (self.start_x as usize) <= (x as usize) && (x as usize) - (self.start_x as usize) < self.width
            && (self.start_y as i32) <= y && ((y - self.start_y as i32) as usize) < self.target.len() {
            let r = (y - self.start_y as i32) as usize;
            let c = (x - self.start_x) as usize;
            assert(cell_at(v, x as int, y as int) == Some((r as int, c as int)));
            assert(self.target@[r as int]@ == v.target[r as int]);
            assert(self.locked@[r as int]@ == v.locked[r as int]);
            if self.locked[r][c].is_none() && self.target[r][c] != ' ' {
                let ch = self.target[r][c];
                self.locked[r][c] = Some(ch);
                assert(self@.locked =~= locked_after(v, x as int, y as int));
                assert(self@.target =~= v.target);
                assert forall|i: int| 0 <= i < self@.target.len() implies {
                    &&& (#[trigger] self@.target[i]).len() == self@.width
                    &&& self@.locked[i].len() == self@.width
                } by {
                    assert(v.target[i].len() == v.width);
                }
                assert forall|i: int, j: int|
                    0 <= i < self@.target.len() && 0 <= j < self@.width implies #[trigger] self@.locked[i][j]
                    is None || (self@.locked[i][j] == Some(self@.target[i][j])
                    && self@.target[i][j] != ' ') by {
                    assert(v.target[i].len() == v.width);
                    if i != r || j != c {
                        assert(self@.locked[i][j] == v.locked[i][j]);
                    }
                }
            }
        }
        assert(self@.locked =~= locked_after(v, x as int, y as int));
    }

    /// Whether rain at `(x, y)` is hidden because the overlay owns that cell.
    pub fn suppresses(&self, x: u16, y: u16) -> (r: bool)
        requires
            self.wf(),
        ensures
            r == suppresses_spec(self@, x as int, y as int),
    {
        if self.framed {
            self.border.contains(x, y)
        } else {
            (self.start_x as usize) <= (x as usize) && (x as usize) - (self.start_x as usize)
                < self.width && self.start_y <= y && ((y - self.start_y) as usize)
                < self.target.len()
        }
    }

    /// Rows of the target.
    pub fn height(&self) -> (r: usize)
        ensures
            r == self@.target.len(),
    {
        self.target.len()
    }

    /// Columns of the target.
    pub fn width(&self) -> (r: usize)
        ensures
            r == self@.width,
    {
        self.width
    }

    /// The viewport position of the target's top-left cell.
    pub fn origin(&self) -> (r: (u16, u16))
        ensures
            r.0 == self@.start_x,
            r.1 == self@.start_y,
    {
        (self.start_x, self.start_y)
    }

    /// The frame around the target.
    pub fn border(&self) -> (r: Rect)
        ensures
            r == self@.border,
    {
        self.border
    }

    /// The target character of a cell.
    pub fn target_char(&self, r: usize, c: usize) -> (ch: char)
        requires
            self.wf(),
            r < self@.target.len(),
            c < self@.width,
        ensures
            ch == self@.target[r as int][c as int],
    {
        assert(self.target@[r as int]@ == self@.target[r as int]);
        self.target[r][c]
    }

    /// The character a cell was revealed with, or `None` while it is hidden.
    pub fn revealed(&self, r: usize, c: usize) -> (m: Option<char>)
        requires
            self.wf(),
            r < self@.target.len(),
            c < self@.width,
        ensures
            m == self@.locked[r as int][c as int],
    {
        assert(self@.target[r as int].len() == self@.width);
        assert(self.locked@[r as int]@ == self@.locked[r as int]);
        self.locked[r][c]
    }
}

} // verus!

verus! {

/// Revealed cells stand out; hidden ones are dim.
pub open spec fn cell_style(m: Option<char>) -> Style {
    match m {
        Some(_) => Style::Revealed,
        None => Style::Hidden,
    }
}

/// Whether target cell `(r, c)` is drawn: it is non-blank and inside the viewport.
pub open spec fn cell_visible(v: OverlayView, r: int, c: int) -> bool {
    &&& v.target[r][c] != ' '
    &&& v.start_x + c < v.view_w
    &&& v.start_y + r < v.view_h
}

/// The draw of target cell `(r, c)`, if it is visible.
pub open spec fn cell_draw(v: OverlayView, r: int, c: int) -> Seq<Draw> {
    if cell_visible(v, r, c) {
        Seq::empty().push(
            Draw {
                x: (v.start_x + c) as u16,
                y: (v.start_y + r) as u16,
                ch: v.target[r][c] as u32,
                style: cell_style(v.locked[r][c]),
            },
        )
    } else {
        Seq::empty()
    }
}

/// Draws of the first `n` cells of row `r`, left to right.
pub open spec fn row_draws(v: OverlayView, r: int, n: int) -> Seq<Draw>
    decreases n,
{
    if n <= 0 {
        Seq::empty()
    } else {
        row_draws(v, r, n - 1) + cell_draw(v, r, n - 1)
    }
}

/// Draws of the first `m` rows, top to bottom.
pub open spec fn grid_draws(v: OverlayView, m: int) -> Seq<Draw>
    decreases m,
{
    if m <= 0 {
        Seq::empty()
    } else {
        grid_draws(v, m - 1) + row_draws(v, m - 1, v.width)
    }
}

/// The character of frame cell `(x, y)` for a target whose top row is `sy`: edges are
/// `-`, sides `|`, and the corners are `+` only where an edge row coincides with the
/// other edge or with the target's top row.
pub open spec fn frame_char(b: Rect, sy: int, x: int, y: int) -> char {
    if (x == b.x0 || x == b.x1) && (y == b.y0 || y == b.y1) && (b.y0 == b.y1 || b.y0 == sy
        || b.y1 == sy) {
        '+'
    } else if y == b.y0 || y == b.y1 {
        '-'
    } else {
        '|'
    }
}

pub open spec fn frame_cell(b: Rect, sy: int, x: int, y: int) -> Draw {
    Draw { x: x as u16, y: y as u16, ch: frame_char(b, sy, x, y) as u32, style: Style::Frame }
}

/// The top and bottom edges over the first `k` columns of the frame.
pub open spec fn edge_draws(b: Rect, sy: int, k: int) -> Seq<Draw>
    decreases k,
{
    if k <= 0 {
        Seq::empty()
    } else {
        let x = b.x0 + k - 1;
        edge_draws(b, sy, k - 1) + seq![frame_cell(b, sy, x, b.y0 as int)] + if b.y1 != b.y0 {
            seq![frame_cell(b, sy, x, b.y1 as int)]
        } else {
            Seq::empty()
        }
    }
}

/// The left and right sides over the first `k` rows strictly between the edges.
pub open spec fn side_draws(b: Rect, sy: int, k: int) -> Seq<Draw>
    decreases k,
{
    if k <= 0 {
        Seq::empty()
    } else {
        let y = b.y0 + k;
        side_draws(b, sy, k - 1) + seq![frame_cell(b, sy, b.x0 as int, y)] + if b.x1 != b.x0 {
            seq![frame_cell(b, sy, b.x1 as int, y)]
        } else {
            Seq::empty()
        }
    }
}

/// The whole frame: both edges, then both sides.
pub open spec fn frame_draws(b: Rect, sy: int) -> Seq<Draw> {
    if b.x0 <= b.x1 && b.y0 <= b.y1 {
        edge_draws(b, sy, b.x1 - b.x0 + 1) + side_draws(b, sy, b.y1 - b.y0 - 1)
    } else {
        Seq::empty()
    }
}

/// What the overlay draws on top of the rain: its frame, when framed and the viewport
/// is not empty, then every non-blank target cell in view.
pub open spec fn overlay_draws(v: OverlayView) -> Seq<Draw> {
    (if v.framed && v.view_w > 0 && v.view_h > 0 {
        frame_draws(v.border, v.start_y)
    } else {
        Seq::empty()
    }) + grid_draws(v, v.target.len() as int)
}

impl Overlay {
    /// Appends the overlay's draws to `out`.
    pub fn draw(&self, out: &mut Vec<Draw>)
        requires
            self.wf(),
        ensures
            final(out)@ == old(out)@ + overlay_draws(self@),
    {
        let ghost v = self@;
        let ghost start = out@;
        if self.framed && self.view_w > 0 && self.view_h > 0 {
            self.draw_frame(out);
        }
        let ghost mid = out@;
        let mut r: usize = 0;
        while r < self.target.len()
            invariant
                self.wf(),
                v == self@,
                r <= v.target.len(),
                out@ == mid + grid_draws(v, r as int),
            decreases v.target.len() - r,
        {
            let mut c: usize = 0;
            assert(self.target@[r as int]@ == v.target[r as int]);
            assert(self.locked@[r as int]@ == v.locked[r as int]);
            assert(v.target[r as int].len() == v.width);
            while c < self.width
                invariant
                    self.wf(),
                    v == self@,
                    r < v.target.len(),
                    c <= v.width,
                    self.target@[r as int]@ == v.target[r as int],
                    self.locked@[r as int]@ == v.locked[r as int],
                    v.target[r as int].len() == v.width,
                    v.locked[r as int].len() == v.width,
                    out@ == mid + grid_draws(v, r as int) + row_draws(v, r as int, c as int),
                decreases v.width - c,
            {
                let ch = self.target[r][c];
                let in_view = self.start_x < self.view_w && c < (self.view_w - self.start_x) as usize
                    && self.start_y < self.view_h && r < (self.view_h - self.start_y) as usize;
                assert(ch == v.target[r as int][c as int]);
                assert(self.locked[r as int][c as int] == v.locked[r as int][c as int]);
                assert(in_view == (v.start_x + c < v.view_w && v.start_y + r < v.view_h));
                assert(row_draws(v, r as int, c + 1) == row_draws(v, r as int, c as int) + cell_draw(
                    v,
                    r as int,
                    c as int,
                ));
                if ch != ' ' && in_view {
                    let x = self.start_x as usize + c;
                    let y = self.start_y as usize + r;
                    let style = if self.locked[r][c].is_some() {
                        Style::Revealed
                    } else {
                        Style::Hidden
                    };
                    let d = Draw { x: x as u16, y: y as u16, ch: ch as u32, style };
                    assert(cell_draw(v, r as int, c as int) =~= seq![d]);
                    out.push(d);
                } else {
                    assert(cell_draw(v, r as int, c as int) =~= Seq::<Draw>::empty());
                }
                assert(out@ =~= mid + grid_draws(v, r as int) + row_draws(v, r as int, c + 1));
                c = c + 1;
            }
            assert(out@ =~= mid + grid_draws(v, r + 1));
            r = r + 1;
        }
        assert(out@ =~= start + overlay_draws(v));
    }

    fn draw_frame(&self, out: &mut Vec<Draw>)
        ensures
            final(out)@ == old(out)@ + frame_draws(self@.border, self@.start_y),
    {
        let b = self.border;
        let ghost sy = self@.start_y;
        let ghost start = out@;
        if b.x0 > b.x1 || b.y0 > b.y1 {
            assert(out@ =~= start + frame_draws(b, sy));
            return;
        }
        let mut x: u32 = b.x0 as u32;
        while x <= b.x1 as u32
            invariant
                b.x0 <= x <= b.x1 + 1,
                b.x0 <= b.x1,
                b.y0 <= b.y1,
                b == self@.border,
                sy == self@.start_y,
                out@ == start + edge_draws(b, sy, x - b.x0),
            decreases b.x1 + 1 - x,
        {
            let xs = x as u16;
            let top = Draw { x: xs, y: b.y0, ch: self.frame_glyph(xs, b.y0) as u32, style: Style::Frame };
            assert(top == frame_cell(b, sy, x as int, b.y0 as int));
            out.push(top);
            if b.y1 != b.y0 {
                let bottom = Draw { x: xs, y: b.y1, ch: self.frame_glyph(xs, b.y1) as u32, style: Style::Frame };
                assert(bottom == frame_cell(b, sy, x as int, b.y1 as int));
                out.push(bottom);
            }
            let ghost bottom_cell = if b.y1 != b.y0 {
                seq![frame_cell(b, sy, x as int, b.y1 as int)]
            } else {
                Seq::empty()
            };
            assert(edge_draws(b, sy, x + 1 - b.x0) == edge_draws(b, sy, x - b.x0) + seq![
                frame_cell(b, sy, x as int, b.y0 as int),
            ] + bottom_cell);
            assert(out@ =~= start + edge_draws(b, sy, x + 1 - b.x0));
            x = x + 1;
        }
        let ghost edges = out@;
        if b.y1 >= 2 && b.y0 <= b.y1 - 2 {
            let mut y: u16 = b.y0 + 1;
            while y < b.y1
                invariant
                    b.y0 + 1 <= y <= b.y1,
                    b == self@.border,
                    sy == self@.start_y,
                    out@ == edges + side_draws(b, sy, y - b.y0 - 1),
                decreases b.y1 - y,
            {
                let left = Draw { x: b.x0, y, ch: self.frame_glyph(b.x0, y) as u32, style: Style::Frame };
                assert(left == frame_cell(b, sy, b.x0 as int, y as int));
                out.push(left);
                if b.x1 != b.x0 {
                    let right = Draw { x: b.x1, y, ch: self.frame_glyph(b.x1, y) as u32, style: Style::Frame };
                    assert(right == frame_cell(b, sy, b.x1 as int, y as int));
                    out.push(right);
                }
                let ghost right_cell = if b.x1 != b.x0 {
                    seq![frame_cell(b, sy, b.x1 as int, y as int)]
                } else {
                    Seq::empty()
                };
                assert(side_draws(b, sy, y - b.y0) == side_draws(b, sy, y - b.y0 - 1) + seq![
                    frame_cell(b, sy, b.x0 as int, y as int),
                ] + right_cell);
                assert(out@ =~= edges + side_draws(b, sy, y - b.y0));
                y = y + 1;
            }
        } else {
            assert(side_draws(b, sy, b.y1 - b.y0 - 1) =~= Seq::<Draw>::empty());
        }
        assert(out@ =~= start + frame_draws(b, sy));
    }

    fn frame_glyph(&self, x: u16, y: u16) -> (ch: char)
        ensures
            ch == frame_char(self@.border, self@.start_y, x as int, y as int),
    {
        let b = self.border;
        let sy = self.start_y;
        if (x == b.x0 || x == b.x1) && (y == b.y0 || y == b.y1) && (b.y0 == b.y1 || b.y0 == sy
            || b.y1 == sy) {
            '+'
        } else if y == b.y0 || y == b.y1 {
            '-'
        } else {
            '|'
        }
    }
}

} // verus!

verus! {

/// The target never starts left of the viewport: a target at least as wide as the
/// viewport starts at column 0, and a narrower one fits entirely.
pub proof fn lemma_start_x_clamped(w: int, tw: int)
    requires
        w >= 0,
        tw >= 0,
    ensures
        start_x_spec(w, tw) >= 0,
        tw >= w ==> start_x_spec(w, tw) == 0,
        tw < w ==> start_x_spec(w, tw) + tw <= w,
{
}

} // verus!
