//! What holds of a grid while agents cover it: only free cells change, each of them
//! becomes covered, and the log leads back to the grid as it was.

use vstd::prelude::*;
use crate::geometry::Point2D;
use crate::grid::lemma_offset_in_range;
use crate::grid::GridCell;
use crate::grid::GridView;
use crate::model::restore;
use crate::model::Sweep;
use crate::robot::RobotView;

verus! {

/// Whether the second grid comes from the first by covering free cells: the dimensions
/// are the same, and each cell either is as it was or was free and is now covered.
pub open spec fn advances(before: GridView, after: GridView) -> bool {
    &&& before.width == after.width
    &&& before.height == after.height
    &&& before.cells.len() == after.cells.len()
    &&& forall|i: int|
        0 <= i < before.cells.len() ==> #[trigger] after.cells[i] == before.cells[i] || (
        before.cells[i] == GridCell::Free && after.cells[i] == GridCell::Wrapped)
}

/// Whether the sweep `later` continues the sweep `start`: its grid comes from the
/// earlier one by covering free cells, its log begins with the earlier log, the cells
/// logged since lie inside the grid, were free, are covered now and are logged once
/// each, and putting them back gives the earlier grid.
pub open spec fn follows(start: Sweep, later: Sweep) -> bool {
    &&& start.grid.shaped()
    &&& advances(start.grid, later.grid)
    &&& start.log.len() <= later.log.len()
    &&& later.log.take(start.log.len() as int) == start.log
    &&& forall|j: int|
        start.log.len() <= j < later.log.len() ==> start.grid.contains(
            (#[trigger] later.log[j]).0,
        )
    &&& restore(later.grid, later.log.skip(start.log.len() as int)) == start.grid
    &&& forall|j: int|
        start.log.len() <= j < later.log.len() ==> (#[trigger] later.log[j]).1 == GridCell::Free
            && start.grid.at(later.log[j].0) == GridCell::Free && later.grid.at(later.log[j].0)
            == GridCell::Wrapped
    &&& forall|i: int, j: int|
        start.log.len() <= i < j < later.log.len() ==> (#[trigger] later.log[i]).0 != (
        #[trigger] later.log[j]).0
}

/// Whether a log holds cells of the grid that were free, each of them once.
pub open spec fn logged_once(before: GridView, log: Seq<(Point2D, GridCell)>) -> bool {
    &&& forall|j: int|
        0 <= j < log.len() ==> (#[trigger] log[j]).1 == GridCell::Free && before.contains(
            log[j].0,
        ) && before.at(log[j].0) == GridCell::Free
    &&& forall|i: int, j: int|
        0 <= i < j < log.len() ==> (#[trigger] log[i]).0 != (#[trigger] log[j]).0
}

/// Covering free cells changes neither which cells lie inside the grid nor which of
/// them can be stepped on.
pub proof fn lemma_advances_keeps_passable(before: GridView, after: GridView, x: int, y: int)
    requires
        before.shaped(),
        advances(before, after),
    ensures
        after.shaped(),
        after.holds(x, y) == before.holds(x, y),
        after.passable(x, y) == before.passable(x, y),
{
    if before.holds(x, y) {
        lemma_offset_in_range(before, x, y);
        let at = before.offset(x, y);
        assert(after.cells[at] == before.cells[at] || (before.cells[at] == GridCell::Free
            && after.cells[at] == GridCell::Wrapped));
    }
}

/// A sweep continues itself.
pub proof fn lemma_follows_itself(sweep: Sweep)
    requires
        sweep.grid.shaped(),
    ensures
        follows(sweep, sweep),
{
    assert(sweep.log.take(sweep.log.len() as int) =~= sweep.log);
    assert(sweep.log.skip(sweep.log.len() as int) =~= Seq::empty());
}

/// Covering one cell inside the grid continues a sweep.
pub proof fn lemma_mark_follows(start: Sweep, sweep: Sweep, p: Point2D)
    requires
        follows(start, sweep),
        start.grid.contains(p),
    ensures
        follows(start, sweep.mark(p)),
{
    let next = sweep.mark(p);
    let n = start.log.len() as int;
    if sweep.grid.at(p) == GridCell::Free {
        lemma_offset_in_range(start.grid, p.x as int, p.y as int);
        let at = sweep.grid.offset(p.x as int, p.y as int);
        assert(next.log.take(n) =~= sweep.log.take(n));
        let fresh = next.log.skip(n);
        assert(fresh.drop_last() =~= sweep.log.skip(n));
        assert(fresh.last() == (p, GridCell::Free));
        assert(next.grid.put(p, GridCell::Free).cells =~= sweep.grid.cells);
        assert(next.grid.put(p, GridCell::Free) == sweep.grid);
        assert(sweep.grid.cells[at] == start.grid.cells[at] || (start.grid.cells[at]
            == GridCell::Free && sweep.grid.cells[at] == GridCell::Wrapped));
        assert forall|i: int| 0 <= i < start.grid.cells.len() implies #[trigger] next.grid.cells[i]
            == start.grid.cells[i] || (start.grid.cells[i] == GridCell::Free && next.grid.cells[i]
            == GridCell::Wrapped) by {
            assert(sweep.grid.cells[i] == start.grid.cells[i] || (start.grid.cells[i]
                == GridCell::Free && sweep.grid.cells[i] == GridCell::Wrapped));
        }
        assert forall|j: int| n <= j < next.log.len() implies (#[trigger] next.log[j]).1
            == GridCell::Free && start.grid.at(next.log[j].0) == GridCell::Free && next.grid.at(
            next.log[j].0,
        ) == GridCell::Wrapped by {
            if j < sweep.log.len() {
                let earlier = sweep.log[j];
                assert(next.log[j] == earlier);
                lemma_offset_in_range(start.grid, earlier.0.x as int, earlier.0.y as int);
            }
        }
        assert forall|i: int, j: int| n <= i < j < next.log.len() implies (#[trigger] next.log[i]).0
            != (#[trigger] next.log[j]).0 by {
            assert(next.log[i] == sweep.log[i]);
            if j < sweep.log.len() {
                assert(next.log[j] == sweep.log[j]);
            } else {
                assert(sweep.grid.at(sweep.log[i].0) == GridCell::Wrapped);
            }
        }
    }
}

/// Covering cells that lie inside the grid, one after the other, continues a sweep.
pub proof fn lemma_mark_all_follows(start: Sweep, sweep: Sweep, parts: Seq<Point2D>, n: int)
    requires
        follows(start, sweep),
        n <= parts.len(),
        forall|j: int| 0 <= j < n ==> start.grid.contains(#[trigger] parts[j]),
    ensures
        follows(start, sweep.mark_all(parts, n)),
    decreases n,
{
    if n > 0 {
        lemma_mark_all_follows(start, sweep, parts, n - 1);
        lemma_mark_follows(start, sweep.mark_all(parts, n - 1), parts[n - 1]);
    }
}

/// The cell that a sensor sees lies inside the grid.
pub proof fn lemma_seen_inside(robot: RobotView, grid: GridView, i: int)
    requires
        grid.shaped(),
        robot.sees(grid, i),
    ensures
        grid.contains(robot.target(i)),
{
}

/// What the first sensors see, each by itself, lies inside the grid.
pub proof fn lemma_independent_inside(robot: RobotView, grid: GridView, n: int)
    requires
        grid.shaped(),
    ensures
        forall|j: int|
            0 <= j < robot.independent(grid, n).len() ==> grid.contains(
                #[trigger] robot.independent(grid, n)[j],
            ),
    decreases n,
{
    if n > 0 {
        lemma_independent_inside(robot, grid, n - 1);
        let all = robot.independent(grid, n);
        let rest = robot.independent(grid, n - 1);
        if robot.sees(grid, n - 1) {
            lemma_seen_inside(robot, grid, n - 1);
        }
        assert forall|j: int| 0 <= j < all.len() implies grid.contains(#[trigger] all[j]) by {
            if j < rest.len() {
                assert(all[j] == rest[j]);
            }
        }
    }
}

/// What the line of sight holds lies inside the grid.
pub proof fn lemma_chain_inside(robot: RobotView, grid: GridView, k: int)
    requires
        grid.shaped(),
    ensures
        forall|j: int|
            0 <= j < robot.chain(grid, k).len() ==> grid.contains(#[trigger] robot.chain(grid, k)[j]),
    decreases robot.tentacles.len() - k,
{
    if 0 <= k < robot.tentacles.len() && robot.sees(grid, k) {
        lemma_chain_inside(robot, grid, k + 1);
        lemma_seen_inside(robot, grid, k);
        let all = robot.chain(grid, k);
        let rest = robot.chain(grid, k + 1);
        assert forall|j: int| 0 <= j < all.len() implies grid.contains(#[trigger] all[j]) by {
            if j > 0 {
                assert(all[j] == rest[j - 1]);
            }
        }
    }
}

/// Every cell that an agent inside the grid covers lies inside the grid.
pub proof fn lemma_visible_inside(robot: RobotView, grid: GridView)
    requires
        grid.shaped(),
        grid.contains(robot.position),
    ensures
        forall|j: int|
            0 <= j < robot.visible(grid).len() ==> grid.contains(#[trigger] robot.visible(grid)[j]),
{
    lemma_independent_inside(robot, grid, robot.pair_len());
    lemma_chain_inside(robot, grid, 2);
    let all = robot.visible(grid);
    let pair = robot.independent(grid, robot.pair_len());
    let line = robot.chain(grid, 2);
    assert forall|j: int| 0 <= j < all.len() implies grid.contains(#[trigger] all[j]) by {
        if 1 <= j < 1 + pair.len() {
            assert(all[j] == pair[j - 1]);
        } else if j >= 1 + pair.len() {
            assert(all[j] == line[j - 1 - pair.len()]);
        }
    }
}

/// Covering what an agent inside the grid sees continues a sweep.
pub proof fn lemma_look_follows(start: Sweep, sweep: Sweep, robot: RobotView)
    requires
        follows(start, sweep),
        start.grid.contains(robot.position),
    ensures
        follows(start, sweep.look(robot)),
{
    lemma_advances_keeps_passable(start.grid, sweep.grid, 0, 0);
    lemma_visible_inside(robot, sweep.grid);
    let parts = robot.visible(sweep.grid);
    lemma_mark_all_follows(start, sweep, parts, parts.len() as int);
}

/// Covering what agents inside the grid see, one agent after the other, continues a
/// sweep.
pub proof fn lemma_cover_follows(start: Sweep, sweep: Sweep, robots: Seq<RobotView>, k: int)
    requires
        follows(start, sweep),
        k <= robots.len(),
        forall|i: int| 0 <= i < k ==> start.grid.contains((#[trigger] robots[i]).position),
    ensures
        follows(start, sweep.cover(robots, k)),
    decreases k,
{
    if k > 0 {
        lemma_cover_follows(start, sweep, robots, k - 1);
        lemma_look_follows(start, sweep.cover(robots, k - 1), robots[k - 1]);
    }
}

} // verus!
