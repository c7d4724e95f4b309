//! The mathematical model of the simulation: what a state holds, what one step makes
//! of it and what taking a step back makes of it.

use vstd::prelude::*;
use crate::geometry::Point2D;
use crate::grid::GridCell;
use crate::grid::GridView;
use crate::robot::RobotView;
use crate::robot::RotationDirection;
use crate::state::Action;
use crate::state::Booster;
use crate::state::BoosterType;
use crate::state::Counts;
use crate::state::placed;
use crate::text::digits;

verus! {

/// The mathematical content of a record of one step.
pub struct ReverseActionView {
    pub action: Action,
    pub picked_up_booster: Option<BoosterType>,
    pub picked_up_booster_position: Point2D,
    pub wrapped_points: Seq<(Point2D, GridCell)>,
    pub robot_fuel_left: u16,
    pub made_two_moves: bool,
    pub teleported_from: Point2D,
}

/// A grid that is being covered, with the log of the cells covered so far and the
/// state that each was in before.
pub struct Sweep {
    pub grid: GridView,
    pub log: Seq<(Point2D, GridCell)>,
}

impl Sweep {
    /// Covers the cell at `p` if it is free, and logs it.
    pub open spec fn mark(self, p: Point2D) -> Sweep {
        if self.grid.at(p) == GridCell::Free {
            Sweep {
                grid: self.grid.put(p, GridCell::Wrapped),
                log: self.log.push((p, GridCell::Free)),
            }
        } else {
            self
        }
    }

    /// Covers the first `n` of the given cells, in order.
    pub open spec fn mark_all(self, parts: Seq<Point2D>, n: int) -> Sweep
        decreases n,
    {
        if n <= 0 {
            self
        } else {
            self.mark_all(parts, n - 1).mark(parts[n - 1])
        }
    }

    /// Covers what one agent sees.
    pub open spec fn look(self, robot: RobotView) -> Sweep {
        let parts = robot.visible(self.grid);
        self.mark_all(parts, parts.len() as int)
    }

    /// Covers what the first `k` agents see, one agent after the other.
    pub open spec fn cover(self, robots: Seq<RobotView>, k: int) -> Sweep
        decreases k,
    {
        if k <= 0 {
            self
        } else {
            self.cover(robots, k - 1).look(robots[k - 1])
        }
    }
}

/// The grid with the logged cells put back into their earlier states, the last one
/// logged first.
pub open spec fn restore(grid: GridView, log: Seq<(Point2D, GridCell)>) -> GridView
    decreases log.len(),
{
    if log.len() == 0 {
        grid
    } else {
        restore(grid.put(log.last().0, log.last().1), log.drop_last())
    }
}

/// How many collected pickups of the given kind an action uses up: attaching a sensor
/// uses an extra arm, accelerating a speed boost and cloning a clone unit.
pub open spec fn used(action: Action, kind: BoosterType) -> nat {
    match action {
        Action::Attach(_) => if kind == BoosterType::B {
            1
        } else {
            0
        },
        Action::Accelerate => if kind == BoosterType::F {
            1
        } else {
            0
        },
        Action::Clone => if kind == BoosterType::C {
            1
        } else {
            0
        },
        _ => 0,
    }
}

/// The direction that takes a quarter turn back.
pub open spec fn opposite(direction: RotationDirection) -> RotationDirection {
    match direction {
        RotationDirection::CW => RotationDirection::CCW,
        RotationDirection::CCW => RotationDirection::CW,
    }
}

/// The fuel after one use of a speed boost: the quantum is added, and one more unit
/// where there was no fuel before.
pub open spec fn boosted(fuel: u16) -> int {
    if fuel == 0 {
        51
    } else {
        fuel + 50
    }
}

/// The fuel at the end of a step: one unit less, and never less than none.
pub open spec fn spent(fuel: u16) -> u16 {
    if fuel == 0 {
        0
    } else {
        (fuel - 1) as u16
    }
}

/// A state after a step, with the record that takes the step back.
pub struct Outcome {
    pub state: StateView,
    pub undo: ReverseActionView,
}

impl ReverseActionView {
    /// The record of a step that has changed nothing yet.
    pub open spec fn blank(action: Action, fuel: u16) -> ReverseActionView {
        ReverseActionView {
            action,
            picked_up_booster: None,
            picked_up_booster_position: Point2D { x: 0, y: 0 },
            wrapped_points: Seq::empty(),
            robot_fuel_left: fuel,
            made_two_moves: false,
            teleported_from: Point2D { x: 0, y: 0 },
        }
    }

    /// This record with a collected pickup noted in it, if there is one.
    pub open spec fn noting(self, picked: Option<BoosterType>, p: Point2D) -> ReverseActionView {
        match picked {
            Some(kind) => ReverseActionView {
                picked_up_booster: Some(kind),
                picked_up_booster_position: p,
                ..self
            },
            None => self,
        }
    }
}

/// The mathematical content of a simulation state.
pub struct StateView {
    pub grid: GridView,
    pub boosters: Map<Point2D, BoosterType>,
    pub robots: Seq<RobotView>,
    pub beacons: Seq<Point2D>,
    pub collected: Counts,
}

impl StateView {
    /// The grid has one cell for each position, there is at least one agent, every
    /// agent stands on a cell of the grid that is not blocked, and the pickups on the
    /// map can be counted.
    pub open spec fn valid(self) -> bool {
        &&& self.grid.shaped()
        &&& self.boosters.dom().finite()
        &&& 1 <= self.robots.len() <= u32::MAX
        &&& forall|i: int|
            0 <= i < self.robots.len() ==> self.grid.passable(
                (#[trigger] self.robots[i]).position.x as int,
                self.robots[i].position.y as int,
            )
    }

    /// The state that a simulation starts in.
    pub open spec fn initial(grid: GridView, boosters: Seq<Booster>, start: Point2D) -> StateView {
        StateView {
            grid,
            boosters: placed(boosters, boosters.len() as int),
            robots: seq![RobotView::fresh(0, start)],
            beacons: Seq::empty(),
            collected: Counts::none(),
        }
    }

    /// The state in words: the dimensions of the grid, the number of agents and the
    /// numbers of cells that are covered and that are still to cover.
    pub open spec fn description(self) -> Seq<char> {
        digits(self.grid.width as nat) + "x"@ + digits(self.grid.height as nat) + " grid, "@
            + digits(self.robots.len()) + " agent(s), "@ + digits(
            self.grid.count(GridCell::Wrapped),
        ) + " cell(s) covered, "@ + digits(self.grid.count(GridCell::Free)) + " to cover"@
    }

    /// The pickup that lies at a position, if there is one.
    pub open spec fn pickup_at(self, p: Point2D) -> Option<BoosterType> {
        if self.boosters.contains_key(p) {
            Some(self.boosters[p])
        } else {
            None
        }
    }

    /// The pickup that an agent at `p` collects: the one that lies there, unless it is
    /// a spawn marker, which stays on the map.
    pub open spec fn collectable(self, p: Point2D) -> Option<BoosterType> {
        if self.boosters.contains_key(p) && self.boosters[p] != BoosterType::X {
            Some(self.boosters[p])
        } else {
            None
        }
    }

    /// The positions at which a pickup of the given kind lies on the map.
    pub open spec fn lying(self, kind: BoosterType) -> Set<Point2D> {
        Set::new(|p: Point2D| self.boosters.contains_key(p) && self.boosters[p] == kind)
    }

    /// How many pickups of the given kind the step collects: one where such a pickup
    /// lies under the agent, and one where the agent moves with fuel onto a cell with
    /// such a pickup. A spawn marker is never collected.
    pub open spec fn taken(self, id: int, action: Action, kind: BoosterType) -> nat {
        let start = self.robots[id].position;
        let under: nat = if self.collectable(start) == Some(kind) {
            1
        } else {
            0
        };
        let ahead: nat = if action.delta().is_some() && self.robots[id].fuel_left > 0
            && self.collectable(start.plus(action.delta().unwrap())) == Some(kind) {
            1
        } else {
            0
        };
        under + ahead
    }

    /// This state with agent `id` replaced.
    pub open spec fn with_robot(self, id: int, robot: RobotView) -> StateView {
        StateView { robots: self.robots.update(id, robot), ..self }
    }

    /// This state with the counter of collected pickups of one kind replaced.
    pub open spec fn with_count(self, kind: BoosterType, n: int) -> StateView {
        StateView { collected: self.collected.with(kind, n as u8), ..self }
    }

    /// The state after the pickup at `p`, if one can be collected there, has moved from
    /// the map to the collected ones.
    pub open spec fn collect(self, p: Point2D) -> StateView {
        match self.collectable(p) {
            Some(kind) => StateView {
                boosters: self.boosters.remove(p),
                ..self.with_count(kind, self.collected.of(kind) + 1)
            },
            None => self,
        }
    }

    /// The state after every agent has covered what it sees, with the covered cells
    /// added to the record.
    pub open spec fn sweep(self, record: ReverseActionView) -> Outcome {
        let swept = Sweep { grid: self.grid, log: record.wrapped_points }.cover(
            self.robots,
            self.robots.len() as int,
        );
        Outcome {
            state: StateView { grid: swept.grid, ..self },
            undo: ReverseActionView { wrapped_points: swept.log, ..record },
        }
    }

    /// The state with the logged cells put back.
    pub open spec fn unswept(self, log: Seq<(Point2D, GridCell)>) -> StateView {
        StateView { grid: restore(self.grid, log), ..self }
    }

    /// Whether agent `id` may take the action: a move needs a cell to step on, attaching
    /// a sensor needs an extra arm and a place next to a sensor, a speed boost and a
    /// clone need their pickup, a clone also a spawn marker under the agent. Turning and
    /// doing nothing are always possible; drilling, beacons and teleports never.
    pub open spec fn applicable(self, id: int, action: Action) -> bool {
        let robot = self.robots[id];
        match action {
            Action::MoveLeft | Action::MoveUp | Action::MoveRight | Action::MoveDown => {
                let d = action.delta().unwrap();
                self.grid.passable(robot.position.x + d.x, robot.position.y + d.y)
            },
            Action::TurnCW | Action::TurnCCW => true,
            Action::Attach(p) => self.collected.of(BoosterType::B) > 0 && robot.adjoins(p),
            Action::Accelerate => self.collected.of(BoosterType::F) > 0,
            Action::Clone => self.collected.of(BoosterType::C) > 0 && self.pickup_at(
                robot.position,
            ) == Some(BoosterType::X),
            Action::NoOp => true,
            _ => false,
        }
    }

    /// Whether the step stays within what the machine types can hold: no counter of
    /// collected pickups, no fuel and no number of agents runs over, and an attached
    /// point can be turned.
    pub open spec fn fits(self, id: int, action: Action) -> bool {
        let start = self.robots[id].position;
        let begun = self.collect(start);
        &&& self.room_for(start)
        &&& match action {
            Action::MoveLeft | Action::MoveUp | Action::MoveRight | Action::MoveDown => {
                self.robots[id].fuel_left > 0 ==> begun.room_for(start.plus(action.delta().unwrap()))
            },
            Action::Attach(p) => p.x > i32::MIN && p.y > i32::MIN,
            Action::Accelerate => self.robots[id].fuel_left + 50 <= u16::MAX,
            Action::Clone => self.robots.len() < u32::MAX,
            _ => true,
        }
    }

    /// Whether the counter for the pickup at `p`, if one can be collected there, can
    /// still grow.
    pub open spec fn room_for(self, p: Point2D) -> bool {
        match self.collectable(p) {
            Some(kind) => self.collected.of(kind) < u8::MAX,
            None => true,
        }
    }

    /// Whether the step collects two pickups: one under the agent and, on a move with
    /// fuel, one on the cell that it moves to. The record of a step holds one pickup.
    pub open spec fn collects_twice(self, id: int, action: Action) -> bool {
        let start = self.robots[id].position;
        &&& action.delta().is_some()
        &&& self.robots[id].fuel_left > 0
        &&& self.collectable(start).is_some()
        &&& self.collectable(start.plus(action.delta().unwrap())).is_some()
    }

    /// The state after a move by `d`, and after a second one where the agent has fuel
    /// and the next cell can be stepped on.
    pub open spec fn advance(self, id: int, d: Point2D, record: ReverseActionView) -> Outcome {
        let first = self.with_robot(
            id,
            self.robots[id].with_position(self.robots[id].position.plus(d)),
        ).sweep(record);
        let here = first.state.robots[id].position;
        if first.state.robots[id].fuel_left > 0 {
            let taken = first.state.collect(here);
            let noted = first.undo.noting(first.state.collectable(here), here);
            if taken.grid.passable(here.x + d.x, here.y + d.y) {
                let second = taken.with_robot(
                    id,
                    taken.robots[id].with_position(here.plus(d)),
                ).sweep(noted);
                Outcome {
                    state: second.state,
                    undo: ReverseActionView { made_two_moves: true, ..second.undo },
                }
            } else {
                Outcome { state: taken, undo: noted }
            }
        } else {
            first
        }
    }

    /// The change that the action itself makes, after the pickup under the agent has
    /// been collected and before the fuel is spent.
    pub open spec fn dispatch(self, id: int, action: Action, record: ReverseActionView) -> Outcome {
        let robot = self.robots[id];
        match action {
            Action::MoveLeft | Action::MoveUp | Action::MoveRight | Action::MoveDown => {
                self.advance(id, action.delta().unwrap(), record)
            },
            Action::TurnCW | Action::TurnCCW => self.with_robot(
                id,
                robot.with_orientation(robot.orientation.turned(action.turn().unwrap())),
            ).sweep(record),
            Action::Attach(p) => self.with_count(
                BoosterType::B,
                self.collected.of(BoosterType::B) - 1,
            ).with_robot(id, robot.with_tentacles(robot.tentacles.push(robot.offset_for(p)))).sweep(
                record,
            ),
            Action::Accelerate => Outcome {
                state: self.with_count(
                    BoosterType::F,
                    self.collected.of(BoosterType::F) - 1,
                ).with_robot(id, robot.with_fuel(boosted(robot.fuel_left) as u16)),
                undo: record,
            },
            Action::Clone => {
                let taken = self.with_count(BoosterType::C, self.collected.of(BoosterType::C) - 1);
                StateView {
                    robots: self.robots.push(
                        RobotView::fresh((self.robots.len() % 256) as u8, robot.position),
                    ),
                    ..taken
                }.sweep(record)
            },
            _ => Outcome { state: self, undo: record },
        }
    }

    /// One step: agent `id` collects the pickup under it, takes the action, and spends
    /// one unit of fuel.
    pub open spec fn step(self, id: int, action: Action) -> Outcome {
        let start = self.robots[id].position;
        let record = ReverseActionView::blank(action, self.robots[id].fuel_left).noting(
            self.collectable(start),
            start,
        );
        let done = self.collect(start).dispatch(id, action, record);
        Outcome {
            state: done.state.with_robot(
                id,
                done.state.robots[id].with_fuel(spent(done.state.robots[id].fuel_left)),
            ),
            undo: done.undo,
        }
    }

    /// The state with a collected pickup put back on the map.
    pub open spec fn returned(self, picked: Option<BoosterType>, p: Point2D) -> StateView {
        match picked {
            Some(kind) => StateView {
                boosters: self.boosters.insert(p, kind),
                ..self.with_count(kind, self.collected.of(kind) - 1)
            },
            None => self,
        }
    }

    /// The change that taking back the action itself makes.
    pub open spec fn retract(self, id: int, record: ReverseActionView) -> StateView {
        let robot = self.robots[id];
        match record.action {
            Action::MoveLeft | Action::MoveUp | Action::MoveRight | Action::MoveDown => {
                let d = record.action.delta().unwrap();
                let back = if record.made_two_moves {
                    robot.position.minus(d).minus(d)
                } else {
                    robot.position.minus(d)
                };
                self.with_robot(id, robot.with_position(back)).unswept(record.wrapped_points)
            },
            Action::TurnCW | Action::TurnCCW => self.with_robot(
                id,
                robot.with_orientation(
                    robot.orientation.turned(opposite(record.action.turn().unwrap())),
                ),
            ).unswept(record.wrapped_points),
            Action::Attach(_) => self.with_count(
                BoosterType::B,
                self.collected.of(BoosterType::B) + 1,
            ).with_robot(id, robot.with_tentacles(robot.tentacles.drop_last())).unswept(
                record.wrapped_points,
            ),
            Action::Accelerate => self.with_count(
                BoosterType::F,
                self.collected.of(BoosterType::F) + 1,
            ),
            Action::Clone => StateView {
                robots: self.robots.drop_last(),
                ..self.with_count(BoosterType::C, self.collected.of(BoosterType::C) + 1)
            }.unswept(record.wrapped_points),
            _ => self,
        }
    }

    /// One step taken back: the collected pickup returns to the map, the action is
    /// reversed, the covered cells are put back and the agent has its earlier fuel.
    pub open spec fn undo(self, id: int, record: ReverseActionView) -> StateView {
        let eased = self.returned(
            record.picked_up_booster,
            record.picked_up_booster_position,
        ).retract(id, record);
        eased.with_robot(id, eased.robots[id].with_fuel(record.robot_fuel_left))
    }

    /// Whether the record can be taken back in this state: the counters it lowers are
    /// above zero and those it raises have room, the cells it logs lie inside the grid,
    /// what it removes is there, and the state that results is valid.
    pub open spec fn undoable(self, id: int, record: ReverseActionView) -> bool {
        let eased = self.returned(record.picked_up_booster, record.picked_up_booster_position);
        &&& 0 <= id < self.robots.len()
        &&& match record.picked_up_booster {
            Some(kind) => self.collected.of(kind) > 0,
            None => true,
        }
        &&& forall|j: int|
            0 <= j < record.wrapped_points.len() ==> self.grid.contains(
                (#[trigger] record.wrapped_points[j]).0,
            )
        &&& match record.action {
            Action::MoveLeft | Action::MoveUp | Action::MoveRight | Action::MoveDown => true,
            Action::TurnCW | Action::TurnCCW => true,
            Action::Attach(_) => eased.collected.of(BoosterType::B) < u8::MAX
                && self.robots[id].tentacles.len() > 0,
            Action::Accelerate => eased.collected.of(BoosterType::F) < u8::MAX,
            Action::Clone => eased.collected.of(BoosterType::C) < u8::MAX && id
                < self.robots.len() - 1,
            Action::NoOp => true,
            _ => false,
        }
        &&& self.undo(id, record).valid()
    }
}

/// Whether agents can take the steps of a plan one after the other, each step allowed
/// by the rules and within what the machine types can hold.
pub open spec fn playable(s: StateView, plan: Seq<(int, Action)>) -> bool
    decreases plan.len(),
{
    plan.len() == 0 || {
        &&& 0 <= plan[0].0 < s.robots.len()
        &&& s.applicable(plan[0].0, plan[0].1)
        &&& s.fits(plan[0].0, plan[0].1)
        &&& playable(s.step(plan[0].0, plan[0].1).state, plan.drop_first())
    }
}

/// Whether no step of a plan collects two pickups.
pub open spec fn single_pickups(s: StateView, plan: Seq<(int, Action)>) -> bool
    decreases plan.len(),
{
    plan.len() == 0 || {
        &&& !s.collects_twice(plan[0].0, plan[0].1)
        &&& single_pickups(s.step(plan[0].0, plan[0].1).state, plan.drop_first())
    }
}

/// The state after the steps of a plan.
pub open spec fn run(s: StateView, plan: Seq<(int, Action)>) -> StateView
    decreases plan.len(),
{
    if plan.len() == 0 {
        s
    } else {
        run(s.step(plan[0].0, plan[0].1).state, plan.drop_first())
    }
}

/// The records of the steps of a plan, in the order of the steps.
pub open spec fn records(s: StateView, plan: Seq<(int, Action)>) -> Seq<ReverseActionView>
    decreases plan.len(),
{
    if plan.len() == 0 {
        Seq::empty()
    } else {
        seq![s.step(plan[0].0, plan[0].1).undo] + records(
            s.step(plan[0].0, plan[0].1).state,
            plan.drop_first(),
        )
    }
}

/// The state after the steps of a plan have been taken back, the last step first,
/// each with its record.
pub open spec fn rewind(
    s: StateView,
    plan: Seq<(int, Action)>,
    undos: Seq<ReverseActionView>,
) -> StateView
    decreases plan.len(),
{
    if plan.len() == 0 || undos.len() == 0 {
        s
    } else {
        rewind(s.undo(plan.last().0, undos.last()), plan.drop_last(), undos.drop_last())
    }
}

} // verus!
