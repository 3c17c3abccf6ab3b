//! A canvas of characters, and straight lines on it.

use vstd::prelude::*;

verus! {

/// A rectangle of characters, kept row by row.
#[derive(Debug)]
pub struct AsciiCanvas {
    pub w: u16,
    pub h: u16,
    pub buf: Vec<char>,
}

/// Mathematical model of an [`AsciiCanvas`].
pub struct CanvasView {
    pub w: u16,
    pub h: u16,
    pub buf: Seq<char>,
}

impl View for AsciiCanvas {
    type V = CanvasView;

    open spec fn view(&self) -> CanvasView {
        CanvasView { w: self.w, h: self.h, buf: self.buf@ }
    }
}

/// The distance of `v` from zero.
pub open spec fn magnitude(v: int) -> int {
    if v < 0 {
        -v
    } else {
        v
    }
}

/// The step that leads from `from` towards `to`.
pub open spec fn toward(from: int, to: int) -> int {
    if from < to {
        1
    } else {
        -1
    }
}

/// A point on the way along a line, with the error term of the walk.
pub struct Walk {
    pub x: int,
    pub y: int,
    pub err: int,
}

/// The point after `p` on a line that spans `dx` columns and `-dy` rows and
/// runs in the directions `sx` and `sy`: the walk steps along X where twice the
/// error is at least `dy`, and along Y where it is at most `dx`.
pub open spec fn walk_step(p: Walk, dx: int, dy: int, sx: int, sy: int) -> Walk {
    let e2 = 2 * p.err;
    let along_x = if e2 >= dy {
        Walk { x: p.x + sx, y: p.y, err: p.err + dy }
    } else {
        p
    };
    if e2 <= dx {
        Walk { x: along_x.x, y: along_x.y + sy, err: along_x.err + dx }
    } else {
        along_x
    }
}

/// The cells from `p` to `(x1, y1)`, at most `fuel` steps on.
pub open spec fn walk_cells(
    p: Walk,
    x1: int,
    y1: int,
    dx: int,
    dy: int,
    sx: int,
    sy: int,
    fuel: nat,
) -> Seq<(int, int)>
    decreases fuel,
{
    if (p.x == x1 && p.y == y1) || fuel == 0 {
        seq![(p.x, p.y)]
    } else {
        seq![(p.x, p.y)] + walk_cells(
            walk_step(p, dx, dy, sx, sy),
            x1,
            y1,
            dx,
            dy,
            sx,
            sy,
            (fuel - 1) as nat,
        )
    }
}

/// The cells of the straight line from `(x0, y0)` to `(x1, y1)`, both ends
/// included, in the order they are walked.
pub open spec fn line_cells(x0: int, y0: int, x1: int, y1: int) -> Seq<(int, int)> {
    let dx = magnitude(x1 - x0);
    let dy = -magnitude(y1 - y0);
    walk_cells(
        Walk { x: x0, y: y0, err: dx + dy },
        x1,
        y1,
        dx,
        dy,
        toward(x0, x1),
        toward(y0, y1),
        (dx - dy) as nat,
    )
}

impl CanvasView {
    /// The buffer holds exactly the cells of the canvas.
    pub open spec fn wf(self) -> bool {
        self.buf.len() == self.w * self.h
    }

    /// Position in the buffer of the cell in column `x` of row `y`, if the
    /// canvas has such a cell.
    pub open spec fn cell(self, x: int, y: int) -> Option<int> {
        if 0 <= x < self.w && 0 <= y < self.h {
            Some(y * self.w + x)
        } else {
            None
        }
    }

    /// The canvas with `ch` in the cell `(x, y)`; unchanged if there is no such
    /// cell.
    pub open spec fn with(self, x: int, y: int, ch: char) -> CanvasView {
        match self.cell(x, y) {
            Some(i) => if i < self.buf.len() {
                CanvasView { buf: self.buf.update(i, ch), ..self }
            } else {
                self
            },
            None => self,
        }
    }

    /// The canvas with `ch` in each of `cells`.
    pub open spec fn with_all(self, cells: Seq<(int, int)>, ch: char) -> CanvasView
        decreases cells.len(),
    {
        if cells.len() == 0 {
            self
        } else {
            self.with(cells[0].0, cells[0].1, ch).with_all(cells.drop_first(), ch)
        }
    }

    /// The characters of row `row`.
    pub open spec fn row(self, row: int) -> Seq<char> {
        self.buf.subrange(row * self.w, row * self.w + self.w)
    }

    /// The first `rows` rows, each but the last of the canvas followed by a
    /// line feed.
    pub open spec fn text(self, rows: int) -> Seq<char>
        decreases rows,
    {
        if rows <= 0 {
            Seq::empty()
        } else if rows == self.h {
            self.text(rows - 1) + self.row(rows - 1)
        } else {
            self.text(rows - 1) + self.row(rows - 1) + seq!['\n']
        }
    }
}

impl AsciiCanvas {
    /// A canvas of `w` columns and `h` rows, all blank.
    pub fn new(w: u16, h: u16) -> (c: Self)
        ensures
            c@.w == w,
            c@.h == h,
            c@.buf == Seq::new((w * h) as nat, |i: int| ' '),
            c@.wf(),
    {
        assert(w * h <= 65535 * 65535) by (nonlinear_arith)
            requires
                w <= 65535,
                h <= 65535,
        ;
        let cells: u32 = w as u32 * h as u32;
        let mut buf: Vec<char> = Vec::new();
        let mut i: u32 = 0;
        while i < cells
            invariant
                i <= cells,
                buf@.len() == i,
                forall|k: int| 0 <= k < i ==> buf@[k] == ' ',
            decreases cells - i,
        {
            buf.push(' ');
            i += 1;
        }
        let c = AsciiCanvas { w, h, buf };
        assert(c@.buf =~= Seq::new((w * h) as nat, |i: int| ' '));
        c
    }

    /// Position in the buffer of the cell in column `x` of row `y`, if the
    /// canvas has such a cell.
    pub fn idx(&self, x: i32, y: i32) -> (i: Option<usize>)
        ensures
            match i {
                Some(i) => self@.cell(x as int, y as int) == Some(i as int),
                None => self@.cell(x as int, y as int) is None,
            },
    {
        if x >= 0 && y >= 0 && x < self.w as i32 && y < self.h as i32 {
            assert(y * self.w + x <= 65534 * 65535 + 65534) by (nonlinear_arith)
                requires
                    0 <= y <= 65534,
                    0 <= x <= 65534,
                    0 <= self.w <= 65535,
            ;
            Some((y as u32 * self.w as u32 + x as u32) as usize)
        } else {
            None
        }
    }

    /// Writes `ch` into the cell `(x, y)`. Changes nothing if the canvas has no
    /// such cell.
    pub fn put(&mut self, x: i32, y: i32, ch: char)
        ensures
            final(self)@ == old(self)@.with(x as int, y as int, ch),
            final(self)@.wf() == old(self)@.wf(),
    {
        if let Some(i) = self.idx(x, y) {
            if i < self.buf.len() {
                self.buf.set(i, ch);
            }
        }
    }

    /// Draws the straight line from `(x0, y0)` to `(x1, y1)` with `ch`. Cells
    /// of the line that the canvas does not have are left out.
    pub fn line(&mut self, x0: i32, y0: i32, x1: i32, y1: i32, ch: char)
        ensures
            final(self)@ == old(self)@.with_all(
                line_cells(x0 as int, y0 as int, x1 as int, y1 as int),
                ch,
            ),
            final(self)@.wf() == old(self)@.wf(),
    {
        proof {
            lemma_with_all_keeps_shape(
                old(self)@,
                line_cells(x0 as int, y0 as int, x1 as int, y1 as int),
                ch,
            );
        }
        let dx: i64 = if x0 < x1 {
            x1 as i64 - x0 as i64
        } else {
            x0 as i64 - x1 as i64
        };
        let ady: i64 = if y0 < y1 {
            y1 as i64 - y0 as i64
        } else {
            y0 as i64 - y1 as i64
        };
        let dy: i64 = -ady;
        let sx: i64 = if x0 < x1 {
            1
        } else {
            -1
        };
        let sy: i64 = if y0 < y1 {
            1
        } else {
            -1
        };
        let mut x: i64 = x0 as i64;
        let mut y: i64 = y0 as i64;
        let mut err: i128 = dx as i128 + dy as i128;
        let ghost mut ax: int = 0;
        let ghost mut ay: int = 0;
        let ghost mut fuel: nat = (dx - dy) as nat;
        let ghost whole = line_cells(x0 as int, y0 as int, x1 as int, y1 as int);
        assert(0 * ady == 0 && 0 * dx == 0) by (nonlinear_arith);
        while !(x == x1 as i64 && y == y1 as i64)
            invariant
                dx == magnitude(x1 - x0),
                ady == magnitude(y1 - y0),
                dy == -ady,
                sx == toward(x0 as int, x1 as int),
                sy == toward(y0 as int, y1 as int),
                0 <= ax <= dx,
                0 <= ay <= ady,
                x == x0 + sx * ax,
                y == y0 + sy * ay,
                err == dx - ady - ax * ady + ay * dx,
                fuel >= (dx - ax) + (ady - ay),
                self@.with_all(walk_cells(Walk { x: x as int, y: y as int, err: err as int }, x1 as int, y1 as int, dx as int, dy as int, sx as int, sy as int, fuel), ch)
                    == old(self)@.with_all(whole, ch),
            decreases (dx - ax) + (ady - ay),
        {
            let ghost here = Walk { x: x as int, y: y as int, err: err as int };
            let ghost rest = walk_cells(
                walk_step(here, dx as int, dy as int, sx as int, sy as int),
                x1 as int,
                y1 as int,
                dx as int,
                dy as int,
                sx as int,
                sy as int,
                (fuel - 1) as nat,
            );
            proof {
                lemma_on_the_way(x0 as int, x1 as int, ax);
                lemma_on_the_way(y0 as int, y1 as int, ay);
                assert(ax < dx || ay < ady);
                let cells = walk_cells(
                    here,
                    x1 as int,
                    y1 as int,
                    dx as int,
                    dy as int,
                    sx as int,
                    sy as int,
                    fuel,
                );
                assert(cells == seq![(x as int, y as int)] + rest);
                assert(cells.drop_first() =~= rest);
                assert(cells[0] == (x as int, y as int));
                lemma_error_bounds(dx as int, ady as int, ax, ay);
            }
            self.put(x as i32, y as i32, ch);
            let e2: i128 = 2 * err;
            if e2 >= dy as i128 {
                proof {
                    lemma_no_overshoot_x(dx as int, ady as int, ax, ay);
                    assert((ax + 1) * ady == ax * ady + ady) by (nonlinear_arith);
                    assert(sx * (ax + 1) == sx * ax + sx) by (nonlinear_arith);
                }
                err = err + dy as i128;
                x = x + sx;
                proof {
                    ax = ax + 1;
                }
            }
            if e2 <= dx as i128 {
                proof {
                    lemma_no_overshoot_y(dx as int, ady as int, if e2 >= dy { ax - 1 } else { ax }, ay);
                    assert((ay + 1) * dx == ay * dx + dx) by (nonlinear_arith);
                    assert(sy * (ay + 1) == sy * ay + sy) by (nonlinear_arith);
                }
                err = err + dx as i128;
                y = y + sy;
                proof {
                    ay = ay + 1;
                }
            }
            proof {
                fuel = (fuel - 1) as nat;
                assert(Walk { x: x as int, y: y as int, err: err as int } == walk_step(
                    here,
                    dx as int,
                    dy as int,
                    sx as int,
                    sy as int,
                ));
            }
        }
        proof {
            lemma_on_the_way(x0 as int, x1 as int, ax);
            lemma_on_the_way(y0 as int, y1 as int, ay);
            let cells = walk_cells(
                Walk { x: x as int, y: y as int, err: err as int },
                x1 as int,
                y1 as int,
                dx as int,
                dy as int,
                sx as int,
                sy as int,
                fuel,
            );
            assert(cells == seq![(x as int, y as int)]);
            assert(cells.drop_first() =~= Seq::<(int, int)>::empty());
            assert(cells[0] == (x as int, y as int));
            reveal_with_fuel(CanvasView::with_all, 2);
        }
        self.put(x as i32, y as i32, ch);
    }

    /// Draws an arrow from `(x0, y0)` to `(x1, y1)`: a straight line of
    /// `shaft`.
    pub fn arrow(&mut self, x0: i32, y0: i32, x1: i32, y1: i32, shaft: char)
        ensures
            final(self)@ == old(self)@.with_all(
                line_cells(x0 as int, y0 as int, x1 as int, y1 as int),
                shaft,
            ),
            final(self)@.wf() == old(self)@.wf(),
    {
        self.line(x0, y0, x1, y1, shaft);
    }

    /// The canvas as text: its rows, top to bottom, with a line feed between
    /// one row and the next.
    pub fn to_text(&self) -> (out: String)
        requires
            self@.wf(),
        ensures
            out@ == self@.text(self@.h as int),
    {
        let mut out = String::new();
        let w: usize = self.w as usize;
        let mut row: u16 = 0;
        while row < self.h
            invariant
                row <= self.h,
                w == self.w,
                self@.wf(),
                out@ == self@.text(row as int),
            decreases self.h - row,
        {
            assert(row * self.w + self.w <= self.w * self.h) by (nonlinear_arith)
                requires
                    0 <= row < self.h,
                    0 <= self.w,
            ;
            assert(self.w * self.h <= 65535 * 65535) by (nonlinear_arith)
                requires
                    self.w <= 65535,
                    self.h <= 65535,
            ;
            let start: usize = (row as u32 * self.w as u32) as usize;
            let ghost before = out@;
            let cells: usize = self.buf.len();
            let mut i: usize = 0;
            while i < w
                invariant
                    i <= w,
                    w == self.w,
                    start == row * self.w,
                    cells == self.buf@.len(),
                    start + w <= cells,
                    out@ == before + self.buf@.subrange(start as int, start + i),
                decreases w - i,
            {
                out.push(self.buf[start + i]);
                i += 1;
                assert(out@ =~= before + self.buf@.subrange(start as int, start + i));
            }
            if row + 1 != self.h {
                out.push('\n');
            }
            row += 1;
            assert(out@ =~= self@.text(row as int));
        }
        out
    }
}

/// Drawing keeps the size of the canvas and of its buffer.
pub proof fn lemma_with_all_keeps_shape(c: CanvasView, cells: Seq<(int, int)>, ch: char)
    ensures
        c.with_all(cells, ch).w == c.w,
        c.with_all(cells, ch).h == c.h,
        c.with_all(cells, ch).buf.len() == c.buf.len(),
    decreases cells.len(),
{
    if cells.len() > 0 {
        lemma_with_all_keeps_shape(c.with(cells[0].0, cells[0].1, ch), cells.drop_first(), ch);
    }
}

/// A point that is `a` steps from `from` towards `to`, and no more steps than
/// the two are apart, lies between them, and is `to` exactly when it has gone
/// all the steps.
proof fn lemma_on_the_way(from: int, to: int, a: int)
    requires
        0 <= a <= magnitude(to - from),
    ensures
        from <= from + toward(from, to) * a <= to || to <= from + toward(from, to) * a <= from,
        from + toward(from, to) * a == to <==> a == magnitude(to - from),
{
    assert(toward(from, to) * a == if from < to { a } else { -a }) by (nonlinear_arith)
        requires
            toward(from, to) == 1 || toward(from, to) == -1,
            from < to ==> toward(from, to) == 1,
            !(from < to) ==> toward(from, to) == -1,
    ;
}

/// The error term stays small enough to be kept in 128 bits.
proof fn lemma_error_bounds(dx: int, ady: int, ax: int, ay: int)
    by (nonlinear_arith)
    requires
        0 <= ax <= dx <= 0xffff_ffff,
        0 <= ay <= ady <= 0xffff_ffff,
    ensures
        -0xffff_ffff * 0xffff_ffff - 0xffff_ffff <= dx - ady - ax * ady + ay * dx <= 0xffff_ffff
            * 0xffff_ffff + 0xffff_ffff,
{
}

/// The walk does not step along X once it has reached the last column.
proof fn lemma_no_overshoot_x(dx: int, ady: int, ax: int, ay: int)
    by (nonlinear_arith)
    requires
        0 <= ax <= dx,
        0 <= ay <= ady,
        ax < dx || ay < ady,
        2 * (dx - ady - ax * ady + ay * dx) >= -ady,
    ensures
        ax < dx,
{
    if ax == dx {
        assert(dx * (1 - ady + ay) <= 0);
        assert(dx - ady - dx * ady + ay * dx == dx * (1 - ady + ay) - ady);
    }
}

/// The walk does not step along Y once it has reached the last row.
proof fn lemma_no_overshoot_y(dx: int, ady: int, ax: int, ay: int)
    by (nonlinear_arith)
    requires
        0 <= ax <= dx,
        0 <= ay <= ady,
        ax < dx || ay < ady,
        2 * (dx - ady - ax * ady + ay * dx) <= dx,
    ensures
        ay < ady,
{
    if ay == ady {
        assert(ady * (dx - ax - 1) >= 0);
        assert(dx - ady - ax * ady + ady * dx == dx + ady * (dx - ax - 1));
    }
}

/// A line begins at its first end, ends at its second, moves one cell at a
/// time, along a row, a column or a diagonal, and never leaves the rectangle
/// that its ends span.
pub proof fn lemma_line_joins_its_ends(x0: int, y0: int, x1: int, y1: int)
    ensures
        line_cells(x0, y0, x1, y1).len() >= 1,
        line_cells(x0, y0, x1, y1).first() == (x0, y0),
        line_cells(x0, y0, x1, y1).last() == (x1, y1),
        line_cells(x0, y0, x1, y1).len() <= magnitude(x1 - x0) + magnitude(y1 - y0) + 1,
        forall|k: int|
            0 <= k < line_cells(x0, y0, x1, y1).len() ==> in_span(
                #[trigger] line_cells(x0, y0, x1, y1)[k],
                x0,
                y0,
                x1,
                y1,
            ),
        forall|k: int|
            0 < k < line_cells(x0, y0, x1, y1).len() ==> adjacent(
                line_cells(x0, y0, x1, y1)[k - 1],
                #[trigger] line_cells(x0, y0, x1, y1)[k],
            ),
{
    let dx = magnitude(x1 - x0);
    let ady = magnitude(y1 - y0);
    assert(0 * ady == 0 && 0 * dx == 0) by (nonlinear_arith);
    assert(toward(x0, x1) * 0 == 0 && toward(y0, y1) * 0 == 0) by (nonlinear_arith);
    lemma_walk_joins(x0, y0, x1, y1, 0, 0, (dx + ady) as nat);
}

/// The cell lies in the rectangle that `(x0, y0)` and `(x1, y1)` span.
pub open spec fn in_span(cell: (int, int), x0: int, y0: int, x1: int, y1: int) -> bool {
    &&& x0 <= cell.0 <= x1 || x1 <= cell.0 <= x0
    &&& y0 <= cell.1 <= y1 || y1 <= cell.1 <= y0
}

/// The two cells differ, and by at most one column and one row.
pub open spec fn adjacent(a: (int, int), b: (int, int)) -> bool {
    &&& a != b
    &&& magnitude(a.0 - b.0) <= 1
    &&& magnitude(a.1 - b.1) <= 1
}

/// The walk from the point that is `ax` columns and `ay` rows along the line.
pub open spec fn walk_from(x0: int, y0: int, x1: int, y1: int, ax: int, ay: int) -> Walk {
    let dx = magnitude(x1 - x0);
    let ady = magnitude(y1 - y0);
    Walk {
        x: x0 + toward(x0, x1) * ax,
        y: y0 + toward(y0, y1) * ay,
        err: dx - ady - ax * ady + ay * dx,
    }
}

/// What [`lemma_line_joins_its_ends`] says of a line holds of the rest of the
/// line from any point on it.
proof fn lemma_walk_joins(x0: int, y0: int, x1: int, y1: int, ax: int, ay: int, fuel: nat)
    requires
        0 <= ax <= magnitude(x1 - x0),
        0 <= ay <= magnitude(y1 - y0),
        fuel >= (magnitude(x1 - x0) - ax) + (magnitude(y1 - y0) - ay),
    ensures
        ({
            let cells = walk_cells(
                walk_from(x0, y0, x1, y1, ax, ay),
                x1,
                y1,
                magnitude(x1 - x0),
                -magnitude(y1 - y0),
                toward(x0, x1),
                toward(y0, y1),
                fuel,
            );
            &&& cells.len() >= 1
            &&& cells.first() == (walk_from(x0, y0, x1, y1, ax, ay).x, walk_from(
                x0,
                y0,
                x1,
                y1,
                ax,
                ay,
            ).y)
            &&& cells.last() == (x1, y1)
            &&& cells.len() <= (magnitude(x1 - x0) - ax) + (magnitude(y1 - y0) - ay) + 1
            &&& forall|k: int| 0 <= k < cells.len() ==> in_span(#[trigger] cells[k], x0, y0, x1, y1)
            &&& forall|k: int| 0 < k < cells.len() ==> adjacent(cells[k - 1], #[trigger] cells[k])
        }),
    decreases (magnitude(x1 - x0) - ax) + (magnitude(y1 - y0) - ay),
{
    let dx = magnitude(x1 - x0);
    let ady = magnitude(y1 - y0);
    let sx = toward(x0, x1);
    let sy = toward(y0, y1);
    let p = walk_from(x0, y0, x1, y1, ax, ay);
    let cells = walk_cells(p, x1, y1, dx, -ady, sx, sy, fuel);
    lemma_on_the_way(x0, x1, ax);
    lemma_on_the_way(y0, y1, ay);
    if !(p.x == x1 && p.y == y1) {
        let e2 = 2 * p.err;
        let bx = if e2 >= -ady {
            ax + 1
        } else {
            ax
        };
        let by = if e2 <= dx {
            ay + 1
        } else {
            ay
        };
        if e2 >= -ady {
            lemma_no_overshoot_x(dx, ady, ax, ay);
        }
        if e2 <= dx {
            lemma_no_overshoot_y(dx, ady, ax, ay);
        }
        assert((ax + 1) * ady == ax * ady + ady) by (nonlinear_arith);
        assert((ay + 1) * dx == ay * dx + dx) by (nonlinear_arith);
        assert(sx * (ax + 1) == sx * ax + sx) by (nonlinear_arith);
        assert(sy * (ay + 1) == sy * ay + sy) by (nonlinear_arith);
        let q = walk_step(p, dx, -ady, sx, sy);
        assert(q == walk_from(x0, y0, x1, y1, bx, by));
        lemma_walk_joins(x0, y0, x1, y1, bx, by, (fuel - 1) as nat);
        let rest = walk_cells(q, x1, y1, dx, -ady, sx, sy, (fuel - 1) as nat);
        assert(cells == seq![(p.x, p.y)] + rest);
        assert(cells.last() == rest.last());
        assert forall|k: int| 0 <= k < cells.len() implies in_span(
            #[trigger] cells[k],
            x0,
            y0,
            x1,
            y1,
        ) by {
            if k > 0 {
                assert(cells[k] == rest[k - 1]);
            }
        }
        assert forall|k: int| 0 < k < cells.len() implies adjacent(
            cells[k - 1],
            #[trigger] cells[k],
        ) by {
            assert(cells[k] == rest[k - 1]);
            if k > 1 {
                assert(cells[k - 1] == rest[k - 2]);
            } else {
                assert(rest[0] == (q.x, q.y));
            }
        }
    }
}

} // verus!
