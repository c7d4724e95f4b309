//! What holds of every step of the simulation, and of every step taken back.

use vstd::prelude::*;
use crate::geometry::Point2D;
use crate::grid::GridCell;
use crate::grid::GridView;
use crate::model::playable;
use crate::model::records;
use crate::model::restore;
use crate::model::rewind;
use crate::model::run;
use crate::model::single_pickups;
use crate::model::used;
use crate::model::ReverseActionView;
use crate::model::StateView;
use crate::model::Sweep;
use crate::robot::lemma_turn_back;
use crate::robot::RobotView;
use crate::state::Action;
use crate::state::BoosterType;
use crate::sweep::advances;
use crate::sweep::follows;
use crate::sweep::lemma_advances_keeps_passable;
use crate::sweep::lemma_cover_follows;
use crate::sweep::lemma_follows_itself;
use crate::sweep::logged_once;

verus! {

/// After the agents of a valid state have covered what they see, the state is valid
/// again, only its grid has changed, and the sweep continues every sweep that the one
/// it began with continued.
pub proof fn lemma_sweep_follows(start: Sweep, s: StateView, record: ReverseActionView)
    requires
        s.valid(),
        follows(start, Sweep { grid: s.grid, log: record.wrapped_points }),
    ensures
        s.sweep(record).state.valid(),
        follows(
            start,
            Sweep {
                grid: s.sweep(record).state.grid,
                log: s.sweep(record).undo.wrapped_points,
            },
        ),
{
    let begun = Sweep { grid: s.grid, log: record.wrapped_points };
    lemma_advances_keeps_passable(start.grid, s.grid, 0, 0);
    assert forall|i: int| 0 <= i < s.robots.len() implies start.grid.contains(
        (#[trigger] s.robots[i]).position,
    ) by {
        lemma_advances_keeps_passable(
            start.grid,
            s.grid,
            s.robots[i].position.x as int,
            s.robots[i].position.y as int,
        );
    }
    lemma_cover_follows(start, begun, s.robots, s.robots.len() as int);
    let after = s.sweep(record).state;
    assert forall|i: int| 0 <= i < after.robots.len() implies after.grid.passable(
        (#[trigger] after.robots[i]).position.x as int,
        after.robots[i].position.y as int,
    ) by {
        lemma_advances_keeps_passable(
            start.grid,
            s.grid,
            s.robots[i].position.x as int,
            s.robots[i].position.y as int,
        );
        lemma_advances_keeps_passable(
            start.grid,
            after.grid,
            s.robots[i].position.x as int,
            s.robots[i].position.y as int,
        );
    }
    lemma_advances_keeps_passable(start.grid, after.grid, 0, 0);
}

/// After the agents of a valid state have covered what they see, the state is valid
/// again.
pub proof fn lemma_sweep_valid(s: StateView, record: ReverseActionView)
    requires
        s.valid(),
    ensures
        s.sweep(record).state.valid(),
{
    let start = Sweep { grid: s.grid, log: record.wrapped_points };
    lemma_follows_itself(start);
    lemma_sweep_follows(start, s, record);
}

/// A sweep that continues one with an empty log leads back to it: putting the logged
/// cells back gives the grid that the sweep began with, and every logged cell lies
/// inside the grid, was free and is logged once.
pub proof fn lemma_follows_restores(start: Sweep, later: Sweep)
    requires
        follows(start, later),
        start.log.len() == 0,
    ensures
        restore(later.grid, later.log) == start.grid,
        forall|j: int| 0 <= j < later.log.len() ==> later.grid.contains((#[trigger] later.log[j]).0),
        logged_once(start.grid, later.log),
{
    assert(later.log.skip(0) =~= later.log);
}

/// What holds of one step and of taking it back: the state after the step is valid,
/// its grid comes from the earlier one by covering free cells, the record logs each
/// covered cell once, the record can be taken back, and taking it back gives the
/// earlier grid, agents and beacons. Unless the step collected two pickups, it gives
/// the whole earlier state.
pub open spec fn undone(s: StateView, id: int, action: Action) -> bool {
    let after = s.step(id, action);
    let back = after.state.undo(id, after.undo);
    &&& after.state.valid()
    &&& advances(s.grid, after.state.grid)
    &&& logged_once(s.grid, after.undo.wrapped_points)
    &&& after.state.undoable(id, after.undo)
    &&& back.grid == s.grid
    &&& back.robots == s.robots
    &&& back.beacons == s.beacons
    &&& !s.collects_twice(id, action) ==> back == s
}

/// Collecting the pickup under an agent leaves a valid state valid, and putting the
/// pickup back gives the state as it was.
pub proof fn lemma_collect_returned(s: StateView, p: Point2D)
    requires
        s.room_for(p),
    ensures
        s.collect(p).grid == s.grid,
        s.collect(p).robots == s.robots,
        s.collect(p).beacons == s.beacons,
        s.valid() ==> s.collect(p).valid(),
        s.collect(p).returned(s.collectable(p), p) == s,
{
    let back = s.collect(p).returned(s.collectable(p), p);
    assert(back.boosters =~= s.boosters);
}

/// A step that only collects and spends fuel can be taken back.
proof fn lemma_quiet_undone(s: StateView, id: int, action: Action)
    requires
        s.valid(),
        0 <= id < s.robots.len(),
        s.fits(id, action),
        action == Action::NoOp,
    ensures
        undone(s, id, action),
{
    let start = s.robots[id].position;
    lemma_collect_returned(s, start);
    let after = s.step(id, action);
    let back = after.state.undo(id, after.undo);
    assert(back.robots =~= s.robots);
}

/// A sweep that starts with an empty log can be put back: the state after it is
/// valid, its grid comes from the earlier one by covering free cells, the logged cells
/// lie inside the grid, were free and are logged once each, and putting them back
/// gives the earlier grid.
pub proof fn lemma_swept_back(s: StateView, record: ReverseActionView)
    requires
        s.valid(),
        record.wrapped_points.len() == 0,
    ensures
        s.sweep(record).state.valid(),
        advances(s.grid, s.sweep(record).state.grid),
        restore(s.sweep(record).state.grid, s.sweep(record).undo.wrapped_points) == s.grid,
        logged_once(s.grid, s.sweep(record).undo.wrapped_points),
        forall|j: int|
            0 <= j < s.sweep(record).undo.wrapped_points.len() ==> s.sweep(
                record,
            ).state.grid.contains((#[trigger] s.sweep(record).undo.wrapped_points[j]).0),
{
    let start = Sweep { grid: s.grid, log: record.wrapped_points };
    let after = s.sweep(record);
    lemma_follows_itself(start);
    lemma_sweep_follows(start, s, record);
    lemma_follows_restores(
        start,
        Sweep { grid: after.state.grid, log: after.undo.wrapped_points },
    );
}

/// A turn can be taken back.
proof fn lemma_turn_undone(s: StateView, id: int, action: Action)
    requires
        s.valid(),
        0 <= id < s.robots.len(),
        s.fits(id, action),
        action.turn().is_some(),
    ensures
        undone(s, id, action),
{
    let start = s.robots[id].position;
    lemma_collect_returned(s, start);
    let begun = s.collect(start);
    let record = ReverseActionView::blank(action, s.robots[id].fuel_left).noting(
        s.collectable(start),
        start,
    );
    let robot = begun.robots[id];
    let turned = begun.with_robot(
        id,
        robot.with_orientation(robot.orientation.turned(action.turn().unwrap())),
    );
    lemma_turn_back(robot.orientation, action.turn().unwrap());
    lemma_swept_back(turned, record);
    let after = s.step(id, action);
    let back = after.state.undo(id, after.undo);
    assert(back.robots =~= s.robots);
}

/// Attaching a sensor can be taken back.
proof fn lemma_attach_undone(s: StateView, id: int, action: Action, p: Point2D)
    requires
        s.valid(),
        0 <= id < s.robots.len(),
        s.applicable(id, action),
        s.fits(id, action),
        action == Action::Attach(p),
    ensures
        undone(s, id, action),
{
    let start = s.robots[id].position;
    lemma_collect_returned(s, start);
    let begun = s.collect(start);
    let record = ReverseActionView::blank(action, s.robots[id].fuel_left).noting(
        s.collectable(start),
        start,
    );
    let robot = begun.robots[id];
    let longer = robot.tentacles.push(robot.offset_for(p));
    assert(longer.drop_last() =~= robot.tentacles);
    let attached = begun.with_count(
        BoosterType::B,
        begun.collected.of(BoosterType::B) - 1,
    ).with_robot(id, robot.with_tentacles(longer));
    lemma_swept_back(attached, record);
    let after = s.step(id, action);
    let back = after.state.undo(id, after.undo);
    assert(back.robots =~= s.robots);
}

/// A speed boost can be taken back.
proof fn lemma_accelerate_undone(s: StateView, id: int, action: Action)
    requires
        s.valid(),
        0 <= id < s.robots.len(),
        s.applicable(id, action),
        s.fits(id, action),
        action == Action::Accelerate,
    ensures
        undone(s, id, action),
{
    let start = s.robots[id].position;
    lemma_collect_returned(s, start);
    let after = s.step(id, action);
    let back = after.state.undo(id, after.undo);
    assert(back.robots =~= s.robots);
}

/// A clone can be taken back.
proof fn lemma_clone_undone(s: StateView, id: int, action: Action)
    requires
        s.valid(),
        0 <= id < s.robots.len(),
        s.applicable(id, action),
        s.fits(id, action),
        action == Action::Clone,
    ensures
        undone(s, id, action),
{
    let start = s.robots[id].position;
    lemma_collect_returned(s, start);
    let begun = s.collect(start);
    let record = ReverseActionView::blank(action, s.robots[id].fuel_left).noting(
        s.collectable(start),
        start,
    );
    let crowd = begun.robots.push(RobotView::fresh((begun.robots.len() % 256) as u8, start));
    let cloned = StateView {
        robots: crowd,
        ..begun.with_count(BoosterType::C, begun.collected.of(BoosterType::C) - 1)
    };
    assert(cloned.valid()) by {
        assert forall|i: int| 0 <= i < crowd.len() implies cloned.grid.passable(
            (#[trigger] crowd[i]).position.x as int,
            crowd[i].position.y as int,
        ) by {
            if i < begun.robots.len() {
                assert(crowd[i] == begun.robots[i]);
            } else {
                assert(crowd[i].position == begun.robots[id].position);
            }
        }
    }
    lemma_swept_back(cloned, record);
    let after = s.step(id, action);
    let back = after.state.undo(id, after.undo);
    assert(back.robots =~= s.robots);
}

/// A move, with or without a second one, can be taken back.
proof fn lemma_move_undone(s: StateView, id: int, action: Action, d: Point2D)
    requires
        s.valid(),
        0 <= id < s.robots.len(),
        s.applicable(id, action),
        s.fits(id, action),
        action.delta() == Some(d),
    ensures
        undone(s, id, action),
{
    let start = s.robots[id].position;
    lemma_collect_returned(s, start);
    let begun = s.collect(start);
    let record = ReverseActionView::blank(action, s.robots[id].fuel_left).noting(
        s.collectable(start),
        start,
    );
    let robot = begun.robots[id];
    let here = start.plus(d);
    let moved = begun.with_robot(id, robot.with_position(here));
    let origin = Sweep { grid: s.grid, log: record.wrapped_points };
    lemma_follows_itself(origin);
    lemma_sweep_follows(origin, moved, record);
    let first = moved.sweep(record);
    let after = s.step(id, action);
    let back = after.state.undo(id, after.undo);
    if robot.fuel_left > 0 {
        lemma_collect_returned(first.state, here);
        let taken = first.state.collect(here);
        let noted = first.undo.noting(first.state.collectable(here), here);
        if taken.grid.passable(here.x + d.x, here.y + d.y) {
            let there = here.plus(d);
            let again = taken.with_robot(id, taken.robots[id].with_position(there));
            lemma_sweep_follows(origin, again, noted);
            let second = again.sweep(noted);
            lemma_follows_restores(
                origin,
                Sweep { grid: second.state.grid, log: second.undo.wrapped_points },
            );
            assert(back.robots =~= s.robots);
        } else {
            lemma_follows_restores(
                origin,
                Sweep { grid: first.state.grid, log: first.undo.wrapped_points },
            );
            assert(back.robots =~= s.robots);
        }
    } else {
        lemma_follows_restores(
            origin,
            Sweep { grid: first.state.grid, log: first.undo.wrapped_points },
        );
        assert(back.robots =~= s.robots);
    }
}

/// Every step that the rules and the machine types allow leaves a valid state valid and
/// can be taken back: taking it back gives the earlier grid, agents and beacons, and,
/// unless the step collected two pickups, the whole earlier state.
pub proof fn lemma_step_undone(s: StateView, id: int, action: Action)
    requires
        s.valid(),
        0 <= id < s.robots.len(),
        s.applicable(id, action),
        s.fits(id, action),
    ensures
        undone(s, id, action),
{
    match action {
        Action::MoveLeft | Action::MoveUp | Action::MoveRight | Action::MoveDown => {
            lemma_move_undone(s, id, action, action.delta().unwrap());
        },
        Action::TurnCW | Action::TurnCCW => {
            lemma_turn_undone(s, id, action);
        },
        Action::Attach(p) => {
            lemma_attach_undone(s, id, action, p);
        },
        Action::Accelerate => {
            lemma_accelerate_undone(s, id, action);
        },
        Action::Clone => {
            lemma_clone_undone(s, id, action);
        },
        Action::NoOp => {
            lemma_quiet_undone(s, id, action);
        },
        _ => {},
    }
}

/// Covering free cells and then covering more free cells is covering free cells.
pub proof fn lemma_advances_chain(first: GridView, second: GridView, third: GridView)
    requires
        advances(first, second),
        advances(second, third),
    ensures
        advances(first, third),
{
    assert forall|i: int| 0 <= i < first.cells.len() implies #[trigger] third.cells[i]
        == first.cells[i] || (first.cells[i] == GridCell::Free && third.cells[i]
        == GridCell::Wrapped) by {
        assert(second.cells[i] == first.cells[i] || (first.cells[i] == GridCell::Free
            && second.cells[i] == GridCell::Wrapped));
    }
}

/// A plan has as many records as it has steps.
pub proof fn lemma_one_record_a_step(s: StateView, plan: Seq<(int, Action)>)
    ensures
        records(s, plan).len() == plan.len(),
    decreases plan.len(),
{
    if plan.len() > 0 {
        lemma_one_record_a_step(s.step(plan[0].0, plan[0].1).state, plan.drop_first());
    }
}

/// Taking a plan back ends with taking back its first step.
pub proof fn lemma_rewind_first_last(
    s: StateView,
    plan: Seq<(int, Action)>,
    undos: Seq<ReverseActionView>,
)
    requires
        plan.len() == undos.len(),
        plan.len() > 0,
    ensures
        rewind(s, plan, undos) == rewind(s, plan.drop_first(), undos.drop_first()).undo(
            plan[0].0,
            undos[0],
        ),
    decreases plan.len(),
{
    let earlier = s.undo(plan.last().0, undos.last());
    if plan.len() > 1 {
        lemma_rewind_first_last(earlier, plan.drop_last(), undos.drop_last());
        assert(plan.drop_last().drop_first() =~= plan.drop_first().drop_last());
        assert(undos.drop_last().drop_first() =~= undos.drop_first().drop_last());
    } else {
        assert(rewind(s, plan, undos) == rewind(earlier, plan.drop_last(), undos.drop_last()));
    }
}

/// Stepping forward keeps a valid state valid and only ever covers free cells: along
/// a plan without a step back, a cell that is covered stays covered and no other cell
/// changes.
pub proof fn lemma_run_advances(s: StateView, plan: Seq<(int, Action)>)
    requires
        s.valid(),
        playable(s, plan),
    ensures
        run(s, plan).valid(),
        advances(s.grid, run(s, plan).grid),
        forall|i: int|
            0 <= i < s.grid.cells.len() && s.grid.cells[i] == GridCell::Wrapped ==> #[trigger] run(
                s,
                plan,
            ).grid.cells[i] == GridCell::Wrapped,
    decreases plan.len(),
{
    if plan.len() > 0 {
        let next = s.step(plan[0].0, plan[0].1).state;
        lemma_step_undone(s, plan[0].0, plan[0].1);
        lemma_run_advances(next, plan.drop_first());
        lemma_advances_chain(s.grid, next.grid, run(s, plan).grid);
    }
    let end = run(s, plan);
    assert forall|i: int|
        0 <= i < s.grid.cells.len() && s.grid.cells[i] == GridCell::Wrapped implies #[trigger] end.grid.cells[i]
        == GridCell::Wrapped by {
        assert(end.grid.cells[i] == s.grid.cells[i] || (s.grid.cells[i] == GridCell::Free
            && end.grid.cells[i] == GridCell::Wrapped));
    }
}

/// Taking the steps of a plan and then taking them back in reverse order, each with
/// its record, gives the state that the plan started from: the same grid, agents,
/// pickups, beacons and counters. This holds of every plan in which no step collects
/// two pickups.
pub proof fn lemma_round_trip(s: StateView, plan: Seq<(int, Action)>)
    requires
        s.valid(),
        playable(s, plan),
        single_pickups(s, plan),
    ensures
        rewind(run(s, plan), plan, records(s, plan)) == s,
    decreases plan.len(),
{
    if plan.len() > 0 {
        let first = s.step(plan[0].0, plan[0].1);
        lemma_step_undone(s, plan[0].0, plan[0].1);
        lemma_round_trip(first.state, plan.drop_first());
        lemma_one_record_a_step(s, plan);
        lemma_rewind_first_last(run(s, plan), plan, records(s, plan));
        assert(records(s, plan).drop_first() =~= records(first.state, plan.drop_first()));
    }
}

/// What holds of the pickups of one kind over one step: none appears on the map, those
/// that leave the map are the ones the step collects, and the counter of collected
/// ones rises by what is collected and falls by what the action uses. Spawn markers
/// all stay on the map.
pub open spec fn conserved(s: StateView, id: int, action: Action, kind: BoosterType) -> bool {
    let after = s.step(id, action).state;
    &&& after.lying(kind).subset_of(s.lying(kind))
    &&& s.lying(kind).finite()
    &&& after.lying(kind).len() + s.taken(id, action, kind) == s.lying(kind).len()
    &&& after.collected.of(kind) + used(action, kind) == s.collected.of(kind) + s.taken(
        id,
        action,
        kind,
    )
    &&& kind == BoosterType::X ==> after.lying(kind) == s.lying(kind)
}

/// The pickups of one kind that lie on the map can be counted.
pub proof fn lemma_lying_finite(s: StateView, kind: BoosterType)
    requires
        s.boosters.dom().finite(),
    ensures
        s.lying(kind).finite(),
{
    vstd::set_lib::lemma_set_subset_finite(s.boosters.dom(), s.lying(kind));
}

/// Collecting at a position takes the pickup there, if it can be collected, off the
/// map and counts it; nothing else changes on the map or in the counters.
pub proof fn lemma_collect_counts(s: StateView, p: Point2D, kind: BoosterType)
    requires
        s.boosters.dom().finite(),
        s.room_for(p),
    ensures
        s.collect(p).boosters.dom().finite(),
        s.collect(p).lying(kind).subset_of(s.lying(kind)),
        s.collect(p).lying(kind).len() + (if s.collectable(p) == Some(kind) {
            1nat
        } else {
            0nat
        }) == s.lying(kind).len(),
        s.collect(p).collected.of(kind) == s.collected.of(kind) + (if s.collectable(p) == Some(
            kind,
        ) {
            1nat
        } else {
            0nat
        }),
        kind == BoosterType::X ==> s.collect(p).lying(kind) == s.lying(kind),
        forall|q: Point2D| q != p ==> s.collect(p).collectable(q) == s.collectable(q),
{
    lemma_lying_finite(s, kind);
    let after = s.collect(p);
    if s.collectable(p) == Some(kind) {
        assert(after.lying(kind) =~= s.lying(kind).remove(p));
    } else {
        assert(after.lying(kind) =~= s.lying(kind));
    }
}

/// Over every step that the rules and the machine types allow, the pickups of each
/// kind are conserved: what leaves the map is what the step collects, and what the
/// counter of collected pickups gains is what is collected less what the action uses.
pub proof fn lemma_pickups_conserved(s: StateView, id: int, action: Action, kind: BoosterType)
    requires
        s.valid(),
        0 <= id < s.robots.len(),
        s.applicable(id, action),
        s.fits(id, action),
    ensures
        conserved(s, id, action, kind),
{
    let start = s.robots[id].position;
    lemma_lying_finite(s, kind);
    lemma_collect_counts(s, start, kind);
    lemma_collect_returned(s, start);
    if action.delta().is_some() && s.robots[id].fuel_left > 0 {
        let begun = s.collect(start);
        let here = start.plus(action.delta().unwrap());
        let record = ReverseActionView::blank(action, s.robots[id].fuel_left).noting(
            s.collectable(start),
            start,
        );
        let first = begun.with_robot(id, begun.robots[id].with_position(here)).sweep(record);
        lemma_collect_counts(first.state, here, kind);
    }
}

/// The pickups of a kind that lie on the map, together with the collected ones of that
/// kind.
pub open spec fn held(s: StateView, kind: BoosterType) -> int {
    s.lying(kind).len() + s.collected.of(kind)
}

/// Along a plan no pickup appears: the pickups of a kind on the map are among those
/// that were there, they and the collected ones together never become more, and the
/// spawn markers all stay. Where nothing was collected at the start, the counter of
/// collected pickups is at most the number that has left the map.
pub proof fn lemma_run_conserves(s: StateView, plan: Seq<(int, Action)>, kind: BoosterType)
    requires
        s.valid(),
        playable(s, plan),
    ensures
        run(s, plan).lying(kind).subset_of(s.lying(kind)),
        held(run(s, plan), kind) <= held(s, kind),
        kind == BoosterType::X ==> run(s, plan).lying(kind) == s.lying(kind),
        s.collected.of(kind) == 0 ==> run(s, plan).collected.of(kind) <= s.lying(kind).len() - run(
            s,
            plan,
        ).lying(kind).len(),
    decreases plan.len(),
{
    if plan.len() > 0 {
        let next = s.step(plan[0].0, plan[0].1).state;
        lemma_step_undone(s, plan[0].0, plan[0].1);
        lemma_pickups_conserved(s, plan[0].0, plan[0].1, kind);
        lemma_run_conserves(next, plan.drop_first(), kind);
    }
}

/// An agent can clone itself only where it stands on a spawn marker, whatever has been
/// collected, and only with a clone unit.
pub proof fn lemma_clone_needs_spawn(s: StateView, id: int)
    requires
        s.applicable(id, Action::Clone),
    ensures
        s.pickup_at(s.robots[id].position) == Some(BoosterType::X),
        s.collected.of(BoosterType::C) > 0,
{
}

} // verus!
