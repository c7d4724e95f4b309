//! A dense grid of cells that keeps a running count of each cell state.

use vstd::prelude::*;
use crate::geometry::Point2D;

verus! {

/// The state of one cell.
#[derive(PartialEq, Eq, Structural, Clone, Copy, Debug)]
pub enum GridCell {
    Obstacle,
    Void,
    Wrapped,
    Free,
}

impl GridCell {
    /// Whether no agent can stand on a cell in this state.
    pub open spec fn blocked(self) -> bool {
        self == GridCell::Obstacle || self == GridCell::Void
    }

    /// Whether no agent can stand on a cell in this state: it is an obstacle or void.
    pub fn is_obstacle(&self) -> (b: bool)
        ensures
            b == self.blocked(),
    {
        match self {
            GridCell::Obstacle | GridCell::Void => true,
            _ => false,
        }
    }
}

/// How many cells of a sequence are in the given state.
pub open spec fn tally(cells: Seq<GridCell>, kind: GridCell) -> nat
    decreases cells.len(),
{
    if cells.len() == 0 {
        0
    } else {
        tally(cells.drop_last(), kind) + if cells.last() == kind {
            1nat
        } else {
            0nat
        }
    }
}

/// The mathematical content of a grid: its dimensions and its cells, row by row.
pub struct GridView {
    pub width: int,
    pub height: int,
    pub cells: Seq<GridCell>,
}

impl GridView {
    /// The dimensions are 16-bit and there is one cell for each position.
    pub open spec fn shaped(self) -> bool {
        &&& 0 <= self.width <= u16::MAX
        &&& 0 <= self.height <= u16::MAX
        &&& self.cells.len() == self.width * self.height
    }

    /// Whether the position with the given coordinates lies inside the grid.
    pub open spec fn holds(self, x: int, y: int) -> bool {
        0 <= x < self.width && 0 <= y < self.height
    }

    /// Whether the point lies inside the grid.
    pub open spec fn contains(self, p: Point2D) -> bool {
        self.holds(p.x as int, p.y as int)
    }

    /// The place of a position in the row-major cell sequence.
    pub open spec fn offset(self, x: int, y: int) -> int {
        y * self.width + x
    }

    /// The state of the cell with the given coordinates.
    pub open spec fn cell(self, x: int, y: int) -> GridCell {
        self.cells[self.offset(x, y)]
    }

    /// The state of the cell at a point.
    pub open spec fn at(self, p: Point2D) -> GridCell {
        self.cell(p.x as int, p.y as int)
    }

    /// Whether the coordinates name a cell inside the grid on which an agent can stand.
    pub open spec fn passable(self, x: int, y: int) -> bool {
        self.holds(x, y) && !self.cell(x, y).blocked()
    }

    /// The grid with the cell at `p` replaced by `value`.
    pub open spec fn put(self, p: Point2D, value: GridCell) -> GridView {
        GridView {
            width: self.width,
            height: self.height,
            cells: self.cells.update(self.offset(p.x as int, p.y as int), value),
        }
    }

    /// How many cells are in the given state.
    pub open spec fn count(self, kind: GridCell) -> nat {
        tally(self.cells, kind)
    }
}

/// Inside a shaped grid every position has its own place in the cell sequence.
pub proof fn lemma_offset_in_range(g: GridView, x: int, y: int)
    requires
        g.shaped(),
        g.holds(x, y),
    ensures
        0 <= g.offset(x, y) < g.cells.len(),
        g.offset(x, y) <= 0xfffe_0000,
{
    let w = g.width;
    let h = g.height;
    assert(0 <= y * w + x < w * h && y * w + x <= 0xfffe_0000) by (nonlinear_arith)
        requires
            0 <= x < w,
            0 <= y < h,
            w <= 0xffff,
            h <= 0xffff,
    ;
}

/// Every place of the cell sequence belongs to the position whose column is the
/// remainder, and whose row the quotient, of the place by the width.
pub proof fn lemma_place_has_position(g: GridView, i: int)
    requires
        g.shaped(),
        0 <= i < g.cells.len(),
    ensures
        g.width > 0,
        g.holds(i % g.width, i / g.width),
        g.offset(i % g.width, i / g.width) == i,
{
    let w = g.width;
    let h = g.height;
    assert(w > 0) by (nonlinear_arith)
        requires
            0 <= w,
            0 <= i < w * h,
    ;
    vstd::arithmetic::div_mod::lemma_fundamental_div_mod(i, w);
    vstd::arithmetic::div_mod::lemma_mod_pos_bound(i, w);
    let x = i % w;
    let y = i / w;
    assert(0 <= y < h) by (nonlinear_arith)
        requires
            i == w * y + x,
            0 <= x < w,
            0 <= i < w * h,
    ;
    assert(y * w + x == i) by (nonlinear_arith)
        requires
            i == w * y + x,
    ;
}

/// Two positions inside a grid share a place only if they are the same position.
pub proof fn lemma_offset_injective(g: GridView, p: Point2D, q: Point2D)
    requires
        g.contains(p),
        g.contains(q),
        g.offset(p.x as int, p.y as int) == g.offset(q.x as int, q.y as int),
    ensures
        p == q,
{
    let w = g.width;
    let (px, py, qx, qy) = (p.x as int, p.y as int, q.x as int, q.y as int);
    assert(py == qy) by (nonlinear_arith)
        requires
            0 <= px < w,
            0 <= qx < w,
            py * w + px == qy * w + qx,
    ;
}

/// No state is counted more often than there are cells.
pub proof fn lemma_tally_bound(cells: Seq<GridCell>, kind: GridCell)
    ensures
        tally(cells, kind) <= cells.len(),
    decreases cells.len(),
{
    if cells.len() > 0 {
        lemma_tally_bound(cells.drop_last(), kind);
    }
}

/// The four counts of a cell sequence add up to its length.
pub proof fn lemma_tally_total(cells: Seq<GridCell>)
    ensures
        tally(cells, GridCell::Obstacle) + tally(cells, GridCell::Void) + tally(
            cells,
            GridCell::Wrapped,
        ) + tally(cells, GridCell::Free) == cells.len(),
    decreases cells.len(),
{
    if cells.len() > 0 {
        lemma_tally_total(cells.drop_last());
    }
}

/// A sequence whose cells are all in one state counts them all under that state.
pub proof fn lemma_tally_uniform(cells: Seq<GridCell>, value: GridCell, kind: GridCell)
    requires
        forall|i: int| 0 <= i < cells.len() ==> cells[i] == value,
    ensures
        tally(cells, kind) == if kind == value {
            cells.len()
        } else {
            0
        },
    decreases cells.len(),
{
    if cells.len() > 0 {
        lemma_tally_uniform(cells.drop_last(), value, kind);
    }
}

/// Replacing one cell moves one unit from the count of its old state to that of its new one.
pub proof fn lemma_tally_update(cells: Seq<GridCell>, i: int, value: GridCell, kind: GridCell)
    requires
        0 <= i < cells.len(),
    ensures
        tally(cells.update(i, value), kind) + (if cells[i] == kind {
            1nat
        } else {
            0nat
        }) == tally(cells, kind) + (if value == kind {
            1nat
        } else {
            0nat
        }),
    decreases cells.len(),
{
    let after = cells.update(i, value);
    if i == cells.len() - 1 {
        assert(after.drop_last() =~= cells.drop_last());
    } else {
        lemma_tally_update(cells.drop_last(), i, value, kind);
        assert(after.drop_last() =~= cells.drop_last().update(i, value));
    }
}

/// A cell in some state is counted under that state.
pub proof fn lemma_tally_positive(cells: Seq<GridCell>, i: int)
    requires
        0 <= i < cells.len(),
    ensures
        tally(cells, cells[i]) >= 1,
    decreases cells.len(),
{
    if i < cells.len() - 1 {
        lemma_tally_positive(cells.drop_last(), i);
    }
}

/// A rectangular grid of cells with a count of the cells in each state.
pub struct Grid {
    pub width: u16,
    pub height: u16,
    pub grid: Vec<GridCell>,
    pub num_obstacles: u32,
    pub num_void: u32,
    pub num_wrapped: u32,
    pub num_free: u32,
}

impl View for Grid {
    type V = GridView;

    open spec fn view(&self) -> GridView {
        GridView { width: self.width as int, height: self.height as int, cells: self.grid@ }
    }
}

impl Grid {
    /// The grid has one cell for each position and each counter holds the number of
    /// cells in its state.
    pub open spec fn wf(&self) -> bool {
        &&& self@.shaped()
        &&& self.num_obstacles == self@.count(GridCell::Obstacle)
        &&& self.num_void == self@.count(GridCell::Void)
        &&& self.num_wrapped == self@.count(GridCell::Wrapped)
        &&& self.num_free == self@.count(GridCell::Free)
    }

    /// A grid of the given dimensions whose cells are all in the state `initial_value`.
    pub fn new(width: u16, height: u16, initial_value: GridCell) -> (g: Grid)
        ensures
            g.wf(),
            g@.width == width,
            g@.height == height,
            forall|i: int| 0 <= i < g@.cells.len() ==> g@.cells[i] == initial_value,
    {
        assert(0 <= width * height <= 0xfffe_0001) by (nonlinear_arith)
            requires
                0 <= width <= 0xffff,
                0 <= height <= 0xffff,
        ;
        let size: u32 = (width as u32) * (height as u32);
        let grid = vec![initial_value; size as usize];
        proof {
            lemma_tally_uniform(grid@, initial_value, GridCell::Obstacle);
            lemma_tally_uniform(grid@, initial_value, GridCell::Void);
            lemma_tally_uniform(grid@, initial_value, GridCell::Wrapped);
            lemma_tally_uniform(grid@, initial_value, GridCell::Free);
        }
        Grid {
            width,
            height,
            grid,
            num_obstacles: if initial_value == GridCell::Obstacle {
                size
            } else {
                0
            },
            num_void: if initial_value == GridCell::Void {
                size
            } else {
                0
            },
            num_wrapped: if initial_value == GridCell::Wrapped {
                size
            } else {
                0
            },
            num_free: if initial_value == GridCell::Free {
                size
            } else {
                0
            },
        }
    }

    /// Replaces the state of the cell at `p`, moving one unit between the two counters.
    pub fn set(&mut self, p: Point2D, value: GridCell)
        requires
            old(self).wf(),
            old(self)@.contains(p),
        ensures
            final(self).wf(),
            final(self)@ == old(self)@.put(p, value),
    {
        let ghost before = self@;
        proof {
            lemma_offset_in_range(before, p.x as int, p.y as int);
        }
        let at: usize = (p.y as usize) * (self.width as usize) + (p.x as usize);
        proof {
            lemma_tally_positive(before.cells, at as int);
            lemma_tally_update(before.cells, at as int, value, GridCell::Obstacle);
            lemma_tally_update(before.cells, at as int, value, GridCell::Void);
            lemma_tally_update(before.cells, at as int, value, GridCell::Wrapped);
            lemma_tally_update(before.cells, at as int, value, GridCell::Free);
            lemma_tally_bound(before.cells.update(at as int, value), value);
            assert(before.width * before.height <= 0xfffe_0001) by (nonlinear_arith)
                requires
                    0 <= before.width <= 0xffff,
                    0 <= before.height <= 0xffff,
            ;
        }
        match self.grid[at] {
            GridCell::Obstacle => self.num_obstacles -= 1,
            GridCell::Void => self.num_void -= 1,
            GridCell::Wrapped => self.num_wrapped -= 1,
            GridCell::Free => self.num_free -= 1,
        }
        self.grid[at] = value;
        match value {
            GridCell::Obstacle => self.num_obstacles += 1,
            GridCell::Void => self.num_void += 1,
            GridCell::Wrapped => self.num_wrapped += 1,
            GridCell::Free => self.num_free += 1,
        }
    }

    /// Whether the point lies inside the grid.
    pub fn contains(&self, p: Point2D) -> (b: bool)
        ensures
            b == self@.contains(p),
    {
        p.x >= 0 && p.x < self.width as i32 && p.y >= 0 && p.y < self.height as i32
    }
}

impl core::ops::Index<Point2D> for Grid {
    type Output = GridCell;

    fn index(&self, p: Point2D) -> (cell: &GridCell)
        ensures
            *cell == self@.at(p),
    {
        proof {
            lemma_offset_in_range(self@, p.x as int, p.y as int);
        }
        &self.grid[(p.y as usize) * (self.width as usize) + (p.x as usize)]
    }
}

impl vstd::std_specs::core::IndexSpecImpl<Point2D> for Grid {
    open spec fn index_req(&self, p: &Point2D) -> bool {
        self.wf() && self@.contains(*p)
    }
}

/// The counters of a well-formed grid add up to the number of its cells.
pub proof fn lemma_counters_cover_grid(g: &Grid)
    requires
        g.wf(),
    ensures
        g.num_obstacles + g.num_void + g.num_wrapped + g.num_free == g.width * g.height,
{
    lemma_tally_total(g@.cells);
}

} // verus!
