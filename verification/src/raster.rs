//! Orthogonal polygons and how they fill the cells of a grid.

use vstd::prelude::*;
use crate::geometry::Point2D;
use crate::grid::lemma_offset_in_range;
use crate::grid::lemma_offset_injective;
use crate::grid::lemma_place_has_position;
use crate::grid::Grid;
use crate::grid::GridCell;
use crate::grid::GridView;

verus! {

/// The index of the corner that follows corner `i` on a contour of `n` corners: the
/// last corner is followed by the first.
pub open spec fn following(i: int, n: int) -> int {
    if i + 1 == n {
        0
    } else {
        i + 1
    }
}

/// The lower of two integers.
pub open spec fn lower(a: int, b: int) -> int {
    if a < b {
        a
    } else {
        b
    }
}

/// The higher of two integers.
pub open spec fn higher(a: int, b: int) -> int {
    if a < b {
        b
    } else {
        a
    }
}

/// Whether the vertical edge between `a` and `b` passes the middle of row `y`: the
/// half-integer `y + 1/2` lies between its ends.
pub open spec fn spans(a: Point2D, b: Point2D, y: int) -> bool {
    2 * lower(a.y as int, b.y as int) <= 2 * y + 1 < 2 * higher(a.y as int, b.y as int)
}

/// Whether edge `i` of the contour is vertical and passes the middle of row `y`.
pub open spec fn crosses(contour: Seq<Point2D>, i: int, y: int) -> bool {
    let a = contour[i];
    let b = contour[following(i, contour.len() as int)];
    a.x == b.x && spans(a, b, y)
}

/// How many of the first `n` edges stand in column `x` and pass the middle of row `y`.
pub open spec fn hits(contour: Seq<Point2D>, n: int, x: int, y: int) -> nat
    decreases n,
{
    if n <= 0 {
        0
    } else {
        hits(contour, n - 1, x, y) + if crosses(contour, n - 1, y) && contour[n - 1].x == x {
            1nat
        } else {
            0nat
        }
    }
}

/// How many of the first `n` edges stand in a column from 0 to `x` and pass the middle
/// of row `y`.
pub open spec fn crossings(contour: Seq<Point2D>, n: int, x: int, y: int) -> nat
    decreases n,
{
    if n <= 0 {
        0
    } else {
        crossings(contour, n - 1, x, y) + if crosses(contour, n - 1, y) && 0 <= contour[n - 1].x
            <= x {
            1nat
        } else {
            0nat
        }
    }
}

/// Whether the cell in column `x` and row `y` lies inside the contour: a scan of the
/// row from column 0 to `x` passes an odd number of vertical edges.
pub open spec fn inside(contour: Seq<Point2D>, x: int, y: int) -> bool {
    crossings(contour, contour.len() as int, x, y) % 2 == 1
}

/// Whether every edge of the contour is vertical or horizontal.
pub open spec fn orthogonal(contour: Seq<Point2D>) -> bool {
    forall|i: int|
        0 <= i < contour.len() ==> (#[trigger] contour[i]).x == contour[following(
            i,
            contour.len() as int,
        )].x || contour[i].y == contour[following(i, contour.len() as int)].y
}

/// The lowest of `start` and the x coordinates of the first `n` points.
pub open spec fn least_x(points: Seq<Point2D>, n: int, start: int) -> int
    decreases n,
{
    if n <= 0 {
        start
    } else {
        lower(least_x(points, n - 1, start), points[n - 1].x as int)
    }
}

/// The lowest of `start` and the y coordinates of the first `n` points.
pub open spec fn least_y(points: Seq<Point2D>, n: int, start: int) -> int
    decreases n,
{
    if n <= 0 {
        start
    } else {
        lower(least_y(points, n - 1, start), points[n - 1].y as int)
    }
}

/// The highest of `start` and the x coordinates of the first `n` points.
pub open spec fn most_x(points: Seq<Point2D>, n: int, start: int) -> int
    decreases n,
{
    if n <= 0 {
        start
    } else {
        higher(most_x(points, n - 1, start), points[n - 1].x as int)
    }
}

/// The highest of `start` and the y coordinates of the first `n` points.
pub open spec fn most_y(points: Seq<Point2D>, n: int, start: int) -> int
    decreases n,
{
    if n <= 0 {
        start
    } else {
        higher(most_y(points, n - 1, start), points[n - 1].y as int)
    }
}

/// How many of the first `n` edges are vertical, run upwards past row `p.y` and stand
/// in a column to the right of `p`.
pub open spec fn rising_beyond(contour: Seq<Point2D>, n: int, p: Point2D) -> nat
    decreases n,
{
    if n <= 0 {
        0
    } else {
        let a = contour[n - 1];
        let b = contour[following(n - 1, contour.len() as int)];
        rising_beyond(contour, n - 1, p) + if a.x == b.x && p.x < a.x && a.y <= p.y < b.y {
            1nat
        } else {
            0nat
        }
    }
}

/// Whether a fill of the grid by the contour reaches the cell in column `x` and row
/// `y`: the scan runs over the rows below the grid's width and the columns below its
/// height, keeps to the cells that the grid has, and takes those inside the contour.
pub open spec fn painted(grid: GridView, contour: Seq<Point2D>, x: int, y: int) -> bool {
    &&& grid.holds(x, y)
    &&& x < grid.height
    &&& y < grid.width
    &&& inside(contour, x, y)
}

/// The grid filled by the contour with `cell`: the painted cells hold `cell` and every
/// other cell is as it was.
pub open spec fn fill(before: GridView, contour: Seq<Point2D>, cell: GridCell) -> GridView {
    GridView {
        width: before.width,
        height: before.height,
        cells: Seq::new(
            before.cells.len(),
            |i: int|
                if painted(before, contour, i % before.width, i / before.width) {
                    cell
                } else {
                    before.cells[i]
                },
        ),
    }
}

/// The highest coordinates are at least the value that the search starts from.
pub proof fn lemma_most_at_least(points: Seq<Point2D>, n: int, start: int)
    ensures
        most_x(points, n, start) >= start,
        most_y(points, n, start) >= start,
    decreases n,
{
    if n > 0 {
        lemma_most_at_least(points, n - 1, start);
    }
}

/// No more edges are counted than there are.
pub proof fn lemma_counts_bounded(contour: Seq<Point2D>, n: int, x: int, y: int)
    requires
        0 <= n,
    ensures
        hits(contour, n, x, y) <= n,
        crossings(contour, n, x, y) <= n,
    decreases n,
{
    if n > 0 {
        lemma_counts_bounded(contour, n - 1, x, y);
    }
}

/// Left of column 0 the scan has passed no edge, and each column adds the edges that
/// stand in it.
pub proof fn lemma_crossings_by_column(contour: Seq<Point2D>, n: int, x: int, y: int)
    ensures
        x < 0 ==> crossings(contour, n, x, y) == 0,
        x >= 0 ==> crossings(contour, n, x, y) == crossings(contour, n, x - 1, y) + hits(
            contour,
            n,
            x,
            y,
        ),
    decreases n,
{
    if n > 0 {
        lemma_crossings_by_column(contour, n - 1, x, y);
    }
}

/// An orthogonal polygon, given by its corners in order.
pub struct Poly {
    pub contour: Vec<Point2D>,
}

impl View for Poly {
    type V = Seq<Point2D>;

    open spec fn view(&self) -> Seq<Point2D> {
        self.contour@
    }
}

impl Poly {
    /// The polygon with the given corners.
    pub fn new(contour: Vec<Point2D>) -> (poly: Poly)
        ensures
            poly@ == contour@,
    {
        Poly { contour }
    }

    /// The corner that follows corner `i`.
    fn next(&self, i: usize) -> (b: Point2D)
        requires
            i < self.contour.len(),
        ensures
            b == self@[following(i as int, self@.len() as int)],
    {
        if i + 1 == self.contour.len() {
            self.contour[0]
        } else {
            self.contour[i + 1]
        }
    }

    /// Whether every edge is vertical or horizontal.
    pub fn is_orthogonal(&self) -> (b: bool)
        ensures
            b == orthogonal(self@),
    {
        let mut i: usize = 0;
        while i < self.contour.len()
            invariant
                i <= self.contour.len(),
                forall|j: int|
                    0 <= j < i ==> (#[trigger] self@[j]).x == self@[following(
                        j,
                        self@.len() as int,
                    )].x || self@[j].y == self@[following(j, self@.len() as int)].y,
            decreases self.contour.len() - i,
        {
            let a = self.contour[i];
            let b = self.next(i);
            if a.x != b.x && a.y != b.y {
                return false;
            }
            i += 1;
        }
        true
    }

    /// The corners of the smallest box that holds the polygon and, on its upper side,
    /// the origin.
    pub fn bbox(&self) -> (corners: (Point2D, Point2D))
        ensures
            corners.0.x == least_x(self@, self@.len() as int, i32::MAX as int),
            corners.0.y == least_y(self@, self@.len() as int, i32::MAX as int),
            corners.1.x == most_x(self@, self@.len() as int, 0),
            corners.1.y == most_y(self@, self@.len() as int, 0),
    {
        let mut min_x: i32 = i32::MAX;
        let mut max_x: i32 = 0;
        let mut min_y: i32 = i32::MAX;
        let mut max_y: i32 = 0;
        let mut i: usize = 0;
        while i < self.contour.len()
            invariant
                i <= self.contour.len(),
                min_x == least_x(self@, i as int, i32::MAX as int),
                min_y == least_y(self@, i as int, i32::MAX as int),
                max_x == most_x(self@, i as int, 0),
                max_y == most_y(self@, i as int, 0),
            decreases self.contour.len() - i,
        {
            let p = self.contour[i];
            if p.x < min_x {
                min_x = p.x;
            }
            if max_x < p.x {
                max_x = p.x;
            }
            if p.y < min_y {
                min_y = p.y;
            }
            if max_y < p.y {
                max_y = p.y;
            }
            i += 1;
        }
        (Point2D::new(min_x, min_y), Point2D::new(max_x, max_y))
    }

    /// Whether an even number of the vertical edges that run upwards past the row of
    /// `p` stand to the right of `p`.
    pub fn contains(&self, p: Point2D) -> (b: bool)
        requires
            orthogonal(self@),
        ensures
            b == (rising_beyond(self@, self@.len() as int, p) % 2 == 0),
    {
        let mut even: bool = true;
        let mut i: usize = 0;
        while i < self.contour.len()
            invariant
                i <= self.contour.len(),
                even == (rising_beyond(self@, i as int, p) % 2 == 0),
            decreases self.contour.len() - i,
        {
            let a = self.contour[i];
            let b = self.next(i);
            if a.x == b.x && p.x < a.x && a.y <= p.y && p.y < b.y {
                even = !even;
            }
            i += 1;
        }
        even
    }

    /// Counts, for each column of the scan, the edges that stand in it and pass the
    /// middle of row `y`.
    fn column_hits(&self, columns: usize, y: i32) -> (counts: Vec<usize>)
        requires
            columns <= u16::MAX,
        ensures
            counts.len() == columns,
            forall|x: int|
                0 <= x < columns ==> #[trigger] counts[x] == hits(self@, self@.len() as int, x, y as int),
    {
        let mut counts: Vec<usize> = vec![0usize; columns];
        let mut i: usize = 0;
        while i < self.contour.len()
            invariant
                i <= self.contour.len(),
                counts.len() == columns,
                forall|x: int|
                    0 <= x < columns ==> #[trigger] counts[x] == hits(self@, i as int, x, y as int),
            decreases self.contour.len() - i,
        {
            let a = self.contour[i];
            let b = self.next(i);
            let low: i64 = if a.y < b.y {
                a.y as i64
            } else {
                b.y as i64
            };
            let high: i64 = if a.y < b.y {
                b.y as i64
            } else {
                a.y as i64
            };
            let middle: i64 = 2 * (y as i64) + 1;
            if a.x == b.x && 0 <= a.x && (a.x as usize) < columns && 2 * low <= middle && middle < 2
                * high {
                let x = a.x as usize;
                proof {
                    lemma_counts_bounded(self@, i as int, x as int, y as int);
                }
                let seen = counts[x];
                counts[x] = seen + 1;
            }
            i += 1;
        }
        counts
    }

    /// Fills the cells of the grid that lie inside the polygon with `cell`.
    pub fn project(&self, grid: &mut Grid, cell: GridCell)
        requires
            old(grid).wf(),
        ensures
            final(grid).wf(),
            final(grid)@ == fill(old(grid)@, self@, cell),
    {
        let ghost before = grid@;
        let ghost n = self@.len() as int;
        let rows = grid.width;
        let columns = grid.height;
        let mut y: u16 = 0;
        while y < rows
            invariant
                y <= rows,
                rows == before.width,
                columns == before.height,
                n == self@.len(),
                grid.wf(),
                before.shaped(),
                grid@.width == before.width,
                grid@.height == before.height,
                forall|cx: int, cy: int|
                    before.holds(cx, cy) ==> #[trigger] grid@.cell(cx, cy) == if cy < y && painted(
                        before,
                        self@,
                        cx,
                        cy,
                    ) {
                        cell
                    } else {
                        before.cell(cx, cy)
                    },
            decreases rows - y,
        {
            let counts = self.column_hits(columns as usize, y as i32);
            let mut count: usize = 0;
            let mut x: u16 = 0;
            proof {
                lemma_crossings_by_column(self@, n, -1, y as int);
            }
            while x < columns
                invariant
                    x <= columns,
                    y < rows,
                    rows == before.width,
                    columns == before.height,
                    n == self@.len(),
                    grid.wf(),
                    before.shaped(),
                    grid@.width == before.width,
                    grid@.height == before.height,
                    counts.len() == columns,
                    forall|c: int|
                        0 <= c < columns ==> #[trigger] counts[c] == hits(self@, n, c, y as int),
                    count == crossings(self@, n, x - 1, y as int),
                    forall|cx: int, cy: int|
                        before.holds(cx, cy) ==> #[trigger] grid@.cell(cx, cy) == if (cy < y || (cy
                            == y && cx < x)) && painted(before, self@, cx, cy) {
                            cell
                        } else {
                            before.cell(cx, cy)
                        },
                decreases columns - x,
            {
                proof {
                    lemma_crossings_by_column(self@, n, x as int, y as int);
                    lemma_counts_bounded(self@, n, x as int, y as int);
                    assert(n == self.contour.len());
                }
                count = count + counts[x as usize];
                let p = Point2D::new(x as i32, y as i32);
                if count % 2 > 0 && grid.contains(p) {
                    let ghost reached = grid@;
                    grid.set(p, cell);
                    proof {
                        assert forall|cx: int, cy: int| before.holds(cx, cy) implies #[trigger] grid@.cell(
                            cx,
                            cy,
                        ) == if (cy < y || (cy == y && cx < x + 1)) && painted(
                            before,
                            self@,
                            cx,
                            cy,
                        ) {
                            cell
                        } else {
                            before.cell(cx, cy)
                        } by {
                            lemma_offset_in_range(reached, cx, cy);
                            lemma_offset_in_range(reached, x as int, y as int);
                            if cx != x || cy != y {
                                let q = Point2D { x: cx as i32, y: cy as i32 };
                                if reached.offset(cx, cy) == reached.offset(x as int, y as int) {
                                    lemma_offset_injective(reached, q, p);
                                }
                                assert(grid@.cell(cx, cy) == reached.cell(cx, cy));
                            }
                        }
                    }
                }
                x += 1;
            }
            y += 1;
        }
        proof {
            let target = fill(before, self@, cell);
            assert forall|i: int| 0 <= i < before.cells.len() implies grid@.cells[i]
                == target.cells[i] by {
                lemma_place_has_position(before, i);
                let cx = i % before.width;
                let cy = i / before.width;
                assert(grid@.cell(cx, cy) == grid@.cells[i]);
            }
            assert(grid@.cells =~= target.cells);
        }
    }
}

/// The contour of the rectangle between the origin and the corner `(w, h)`.
pub open spec fn rectangle(w: i32, h: i32) -> Seq<Point2D> {
    seq![
        Point2D { x: 0, y: 0 },
        Point2D { x: 0, y: h },
        Point2D { x: w, y: h },
        Point2D { x: w, y: 0 },
    ]
}

/// A rectangle holds exactly the cells between its sides: those in the columns below
/// its width and the rows below its height.
pub proof fn lemma_rectangle_inside(w: i32, h: i32, x: int, y: int)
    requires
        0 < w,
        0 < h,
        0 <= x,
    ensures
        orthogonal(rectangle(w, h)),
        inside(rectangle(w, h), x, y) == (x < w && 0 <= y < h),
{
    reveal_with_fuel(crossings, 5);
}

} // verus!
