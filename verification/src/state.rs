//! The simulation state and its reversible actions.

use std::collections::HashMap;
use vstd::prelude::*;
use vstd::string::StringExecFns;
use crate::geometry::Point2D;
use crate::grid::Grid;
use crate::grid::GridCell;
use crate::interface;
use crate::laws::lemma_collect_counts;
use crate::laws::lemma_collect_returned;
use crate::laws::lemma_step_undone;
use crate::laws::lemma_sweep_valid;
use crate::laws::undone;
use crate::model::boosted;
use crate::model::opposite;
use crate::model::restore;
use crate::model::spent;
use crate::model::ReverseActionView;
use crate::model::StateView;
use crate::model::Sweep;
use crate::robot::Robot;
use crate::robot::RobotView;
use crate::robot::RotationDirection;
use crate::sweep::lemma_visible_inside;
use crate::text::number_text;

verus! {

broadcast use vstd::std_specs::hash::group_hash_axioms;

/// The fuel that one use of a speed boost adds.
pub const FUEL_INITIAL_VALUE: u16 = 50;

/// The kinds of pickup: extra arm, speed boost, drill, spawn marker, beacon, clone unit.
#[derive(PartialEq, Eq, Structural, Clone, Copy, Hash, Debug)]
pub enum BoosterType {
    B,
    F,
    L,
    X,
    R,
    C,
}

/// A pickup and where it lies.
#[derive(PartialEq, Eq, Structural, Clone, Copy, Debug)]
pub struct Booster {
    pub type_: BoosterType,
    pub position: Point2D,
}

/// What an agent can be told to do in one step. Drilling, installing a beacon and
/// teleporting are reserved: no state lets an agent take them.
#[derive(PartialEq, Eq, Structural, Clone, Copy, Debug)]
pub enum Action {
    MoveLeft,
    MoveUp,
    MoveRight,
    MoveDown,
    TurnCW,
    TurnCCW,
    Attach(Point2D),
    Clone,
    Accelerate,
    Drill,
    NoOp,
    InstallBeacon,
    Teleport(Point2D),
}

impl Action {
    /// The unit step of a move, and nothing for any other action.
    pub open spec fn delta(self) -> Option<Point2D> {
        match self {
            Action::MoveLeft => Some(Point2D { x: -1i32, y: 0 }),
            Action::MoveUp => Some(Point2D { x: 0, y: 1 }),
            Action::MoveRight => Some(Point2D { x: 1, y: 0 }),
            Action::MoveDown => Some(Point2D { x: 0, y: -1i32 }),
            _ => None,
        }
    }

    /// The direction of a turn, and nothing for any other action.
    pub open spec fn turn(self) -> Option<RotationDirection> {
        match self {
            Action::TurnCW => Some(RotationDirection::CW),
            Action::TurnCCW => Some(RotationDirection::CCW),
            _ => None,
        }
    }

    /// The unit step of a move, and nothing for any other action.
    pub fn move_point(&self) -> (step: Option<Point2D>)
        ensures
            step == self.delta(),
    {
        match self {
            Action::MoveLeft => Some(Point2D::new(-1, 0)),
            Action::MoveUp => Some(Point2D::new(0, 1)),
            Action::MoveRight => Some(Point2D::new(1, 0)),
            Action::MoveDown => Some(Point2D::new(0, -1)),
            _ => None,
        }
    }

    /// The direction of a turn, and nothing for any other action.
    pub fn rotation_direction(&self) -> (direction: Option<RotationDirection>)
        ensures
            direction == self.turn(),
    {
        match self {
            Action::TurnCW => Some(RotationDirection::CW),
            Action::TurnCCW => Some(RotationDirection::CCW),
            _ => None,
        }
    }
}

/// How many pickups of each kind have been collected and not yet used.
#[derive(PartialEq, Eq, Structural, Clone, Copy, Debug)]
pub struct Counts {
    pub b: u8,
    pub f: u8,
    pub l: u8,
    pub x: u8,
    pub r: u8,
    pub c: u8,
}

impl Counts {
    /// The count kept for one kind.
    pub open spec fn of(self, kind: BoosterType) -> u8 {
        match kind {
            BoosterType::B => self.b,
            BoosterType::F => self.f,
            BoosterType::L => self.l,
            BoosterType::X => self.x,
            BoosterType::R => self.r,
            BoosterType::C => self.c,
        }
    }

    /// These counts with the one for `kind` replaced.
    pub open spec fn with(self, kind: BoosterType, n: u8) -> Counts {
        match kind {
            BoosterType::B => Counts { b: n, ..self },
            BoosterType::F => Counts { f: n, ..self },
            BoosterType::L => Counts { l: n, ..self },
            BoosterType::X => Counts { x: n, ..self },
            BoosterType::R => Counts { r: n, ..self },
            BoosterType::C => Counts { c: n, ..self },
        }
    }

    /// Nothing collected.
    pub open spec fn none() -> Counts {
        Counts { b: 0, f: 0, l: 0, x: 0, r: 0, c: 0 }
    }

    /// Nothing collected.
    pub fn new() -> (counts: Counts)
        ensures
            counts == Counts::none(),
    {
        Counts { b: 0, f: 0, l: 0, x: 0, r: 0, c: 0 }
    }

    /// The count kept for one kind.
    pub fn get(&self, kind: BoosterType) -> (n: u8)
        ensures
            n == self.of(kind),
    {
        match kind {
            BoosterType::B => self.b,
            BoosterType::F => self.f,
            BoosterType::L => self.l,
            BoosterType::X => self.x,
            BoosterType::R => self.r,
            BoosterType::C => self.c,
        }
    }

    /// Replaces the count kept for one kind.
    pub fn insert(&mut self, kind: BoosterType, n: u8)
        ensures
            *final(self) == old(self).with(kind, n),
    {
        match kind {
            BoosterType::B => self.b = n,
            BoosterType::F => self.f = n,
            BoosterType::L => self.l = n,
            BoosterType::X => self.x = n,
            BoosterType::R => self.r = n,
            BoosterType::C => self.c = n,
        }
    }
}

/// What one step changed, so that it can be taken back.
pub struct ReverseAction {
    pub action: Action,
    pub picked_up_booster: Option<BoosterType>,
    pub picked_up_booster_position: Point2D,
    pub wrapped_points: Vec<(Point2D, GridCell)>,
    pub robot_fuel_left: u16,
    pub made_two_moves: bool,
    pub teleported_from: Point2D,
}

impl View for ReverseAction {
    type V = ReverseActionView;

    open spec fn view(&self) -> ReverseActionView {
        ReverseActionView {
            action: self.action,
            picked_up_booster: self.picked_up_booster,
            picked_up_booster_position: self.picked_up_booster_position,
            wrapped_points: self.wrapped_points@,
            robot_fuel_left: self.robot_fuel_left,
            made_two_moves: self.made_two_moves,
            teleported_from: self.teleported_from,
        }
    }
}

/// The number under which a position is filed in the pickup table: each position has
/// its own.
pub open spec fn key_of(p: Point2D) -> u64 {
    ((p.x + 0x8000_0000) * 0x1_0000_0000 + (p.y + 0x8000_0000)) as u64
}

/// Different positions are filed under different numbers.
pub proof fn lemma_key_injective(p: Point2D, q: Point2D)
    requires
        key_of(p) == key_of(q),
    ensures
        p == q,
{
}

fn key(p: Point2D) -> (k: u64)
    ensures
        k == key_of(p),
{
    let high: u64 = (p.x as i64 + 0x8000_0000) as u64;
    let low: u64 = (p.y as i64 + 0x8000_0000) as u64;
    high * 0x1_0000_0000 + low
}

/// The pickups that a table holds, by position.
pub open spec fn filed(table: Map<u64, BoosterType>) -> Map<Point2D, BoosterType> {
    Map::new(|p: Point2D| table.contains_key(key_of(p)), |p: Point2D| table[key_of(p)])
}

/// The pickup map that the first `n` entries of a list describe: a later entry
/// replaces an earlier one at the same position.
pub open spec fn placed(list: Seq<Booster>, n: int) -> Map<Point2D, BoosterType>
    decreases n,
{
    if n <= 0 {
        Map::empty()
    } else {
        placed(list, n - 1).insert(list[n - 1].position, list[n - 1].type_)
    }
}

/// The pickups that a list describes can be counted.
pub proof fn lemma_placed_finite(list: Seq<Booster>, n: int)
    ensures
        placed(list, n).dom().finite(),
    decreases n,
{
    if n > 0 {
        lemma_placed_finite(list, n - 1);
    }
}

/// Filing a pickup in the table puts it on the map.
pub proof fn lemma_filed_insert(table: Map<u64, BoosterType>, p: Point2D, kind: BoosterType)
    ensures
        filed(table.insert(key_of(p), kind)) == filed(table).insert(p, kind),
{
    assert forall|q: Point2D| q != p implies key_of(q) != key_of(p) by {
        if key_of(q) == key_of(p) {
            lemma_key_injective(q, p);
        }
    }
}

/// Taking a pickup out of the table takes it off the map.
pub proof fn lemma_filed_remove(table: Map<u64, BoosterType>, p: Point2D)
    ensures
        filed(table.remove(key_of(p))) == filed(table).remove(p),
{
    assert forall|q: Point2D| q != p implies key_of(q) != key_of(p) by {
        if key_of(q) == key_of(p) {
            lemma_key_injective(q, p);
        }
    }
}

/// The whole simulation: the grid, the pickups on it, the agents, the beacons and the
/// collected pickups.
pub struct State {
    grid: Grid,
    boosters: HashMap<u64, BoosterType>,
    robots: Vec<Robot>,
    beacons: Vec<Point2D>,
    collected_boosters: Counts,
}

impl View for State {
    type V = StateView;

    closed spec fn view(&self) -> StateView {
        StateView {
            grid: self.grid@,
            boosters: filed(self.boosters@),
            robots: Seq::new(self.robots@.len(), |i: int| self.robots@[i]@),
            beacons: self.beacons@,
            collected: self.collected_boosters,
        }
    }
}

impl State {
    /// The counters of the grid agree with its cells.
    pub closed spec fn coherent(&self) -> bool {
        self.grid.wf()
    }

    /// The state is coherent and valid: the grid is well formed and every agent stands
    /// on a cell of the grid that is not blocked.
    pub open spec fn wf(&self) -> bool {
        self.coherent() && self@.valid()
    }

    /// A state with one agent at `initial_position`, the listed pickups on the map and
    /// nothing collected.
    pub fn new(grid: Grid, boosters: Vec<Booster>, initial_position: Point2D) -> (s: State)
        requires
            grid.wf(),
            grid@.passable(initial_position.x as int, initial_position.y as int),
        ensures
            s.wf(),
            s@ == StateView::initial(grid@, boosters@, initial_position),
    {
        let mut table: HashMap<u64, BoosterType> = HashMap::new();
        let mut i: usize = 0;
        while i < boosters.len()
            invariant
                i <= boosters.len(),
                filed(table@) == placed(boosters@, i as int),
            decreases boosters.len() - i,
        {
            let b = boosters[i];
            proof {
                lemma_filed_insert(table@, b.position, b.type_);
            }
            table.insert(key(b.position), b.type_);
            i += 1;
        }
        let mut robots: Vec<Robot> = Vec::new();
        robots.push(Robot::new(0, initial_position));
        let s = State {
            grid,
            boosters: table,
            robots,
            beacons: Vec::new(),
            collected_boosters: Counts::new(),
        };
        assert(s@.robots =~= seq![RobotView::fresh(0, initial_position)]);
        proof {
            lemma_placed_finite(boosters@, boosters@.len() as int);
        }
        s
    }

    /// The agent with the given number.
    pub fn robot(&self, id: u32) -> (r: &Robot)
        requires
            id < self@.robots.len(),
        ensures
            r@ == self@.robots[id as int],
    {
        &self.robots[id as usize]
    }

    /// The grid of the simulation.
    pub fn grid(&self) -> (g: &Grid)
        ensures
            g@ == self@.grid,
            self.wf() ==> g.wf(),
    {
        &self.grid
    }

    /// The pickup that lies at `position`, if there is one.
    pub fn booster_at(&self, position: Point2D) -> (kind: Option<BoosterType>)
        ensures
            kind == self@.pickup_at(position),
    {
        match self.boosters.get(&key(position)) {
            Some(kind) => Some(*kind),
            None => None,
        }
    }

    /// How many pickups of one kind are collected and not yet used.
    pub fn collected(&self, kind: BoosterType) -> (n: u8)
        ensures
            n == self@.collected.of(kind),
    {
        self.collected_boosters.get(kind)
    }

    /// Collects the pickup at `position`, unless there is none or it is a spawn marker,
    /// and notes it in the record.
    fn maybe_collect_booster(&mut self, position: Point2D, reverse_action: &mut ReverseAction)
        requires
            old(self).coherent(),
            old(self)@.room_for(position),
        ensures
            final(self).coherent(),
            final(self)@ == old(self)@.collect(position),
            final(reverse_action)@ == old(reverse_action)@.noting(
                old(self)@.collectable(position),
                position,
            ),
    {
        let ghost table = self.boosters@;
        proof {
            lemma_filed_remove(table, position);
        }
        match self.boosters.remove(&key(position)) {
            Some(type_) => {
                if type_ == BoosterType::X {
                    // a spawn marker stays where it is
                    self.boosters.insert(key(position), type_);
                    assert(self.boosters@ =~= table);
                } else {
                    reverse_action.picked_up_booster = Some(type_);
                    reverse_action.picked_up_booster_position = position;
                    let n = self.collected_boosters.get(type_);
                    self.collected_boosters.insert(type_, n + 1);
                }
            },
            None => {
                assert(self.boosters@ =~= table);
            },
        }
    }

    /// Lets every agent cover the free cells that it sees, and logs them in the record.
    fn wrap(&mut self, reverse_action: &mut ReverseAction)
        requires
            old(self).wf(),
        ensures
            final(self).wf(),
            final(self)@ == old(self)@.sweep(old(reverse_action)@).state,
            final(reverse_action)@ == old(self)@.sweep(old(reverse_action)@).undo,
    {
        let ghost before = self@;
        let ghost record = reverse_action@;
        let ghost start = Sweep { grid: before.grid, log: record.wrapped_points };
        let mut k: usize = 0;
        while k < self.robots.len()
            invariant
                k <= self.robots.len(),
                before.valid(),
                self.grid.wf(),
                self.grid@.width == before.grid.width,
                self.grid@.height == before.grid.height,
                self@ == (StateView { grid: self.grid@, ..before }),
                reverse_action@ == (ReverseActionView {
                    wrapped_points: reverse_action.wrapped_points@,
                    ..record
                }),
                (Sweep { grid: self.grid@, log: reverse_action.wrapped_points@ }) == start.cover(
                    before.robots,
                    k as int,
                ),
            decreases self.robots.len() - k,
        {
            let ghost reached = Sweep { grid: self.grid@, log: reverse_action.wrapped_points@ };
            let parts = self.robots[k].get_visible_parts(&self.grid);
            proof {
                lemma_visible_inside(before.robots[k as int], reached.grid);
            }
            let mut j: usize = 0;
            while j < parts.len()
                invariant
                    j <= parts.len(),
                    k < self.robots.len(),
                    self.grid.wf(),
                    self.grid@.width == before.grid.width,
                    self.grid@.height == before.grid.height,
                    forall|i: int| 0 <= i < parts@.len() ==> reached.grid.contains(#[trigger] parts@[i]),
                    reached.grid.width == before.grid.width,
                    reached.grid.height == before.grid.height,
                    self@ == (StateView { grid: self.grid@, ..before }),
                    reverse_action@ == (ReverseActionView {
                        wrapped_points: reverse_action.wrapped_points@,
                        ..record
                    }),
                    (Sweep { grid: self.grid@, log: reverse_action.wrapped_points@ })
                        == reached.mark_all(parts@, j as int),
                decreases parts.len() - j,
            {
                let part = parts[j];
                let cell = self.grid[part];
                if cell == GridCell::Free {
                    reverse_action.wrapped_points.push((part, cell));
                    self.grid.set(part, GridCell::Wrapped);
                }
                j += 1;
            }
            k += 1;
        }
        proof {
            lemma_sweep_valid(before, record);
        }
    }

    /// Puts the cells that the record logs back into their earlier states.
    fn unwrap(&mut self, reverse_action: &ReverseAction)
        requires
            old(self).coherent(),
            forall|j: int|
                0 <= j < reverse_action@.wrapped_points.len() ==> old(self)@.grid.contains(
                    (#[trigger] reverse_action@.wrapped_points[j]).0,
                ),
        ensures
            final(self).coherent(),
            final(self)@ == old(self)@.unswept(reverse_action@.wrapped_points),
    {
        let ghost before = self@;
        let ghost log = reverse_action.wrapped_points@;
        let mut i: usize = reverse_action.wrapped_points.len();
        assert(log.take(i as int) =~= log);
        assert forall|j: int| 0 <= j < log.len() implies before.grid.contains(
            (#[trigger] log[j]).0,
        ) by {
            assert(before.grid.contains(reverse_action@.wrapped_points[j].0));
        }
        while i > 0
            invariant
                i <= reverse_action.wrapped_points.len(),
                log == reverse_action.wrapped_points@,
                self.grid.wf(),
                self.grid@.width == before.grid.width,
                self.grid@.height == before.grid.height,
                forall|j: int| 0 <= j < log.len() ==> before.grid.contains((#[trigger] log[j]).0),
                self@ == (StateView { grid: self.grid@, ..before }),
                restore(self.grid@, log.take(i as int)) == restore(before.grid, log),
            decreases i,
        {
            i -= 1;
            let (p, cell) = reverse_action.wrapped_points[i];
            proof {
                assert(log.take(i + 1).drop_last() =~= log.take(i as int));
            }
            self.grid.set(p, cell);
        }
    }

    /// Opens a step: collects the pickup under the agent and starts the record with the
    /// action, the pickup and the fuel that the agent has.
    fn begin(&mut self, id: u32, action: Action) -> (reverse_action: ReverseAction)
        requires
            old(self).wf(),
            id < old(self)@.robots.len(),
            old(self)@.room_for(old(self)@.robots[id as int].position),
        ensures
            final(self).wf(),
            final(self)@ == old(self)@.collect(old(self)@.robots[id as int].position),
            reverse_action@ == ReverseActionView::blank(
                action,
                old(self)@.robots[id as int].fuel_left,
            ).noting(
                old(self)@.collectable(old(self)@.robots[id as int].position),
                old(self)@.robots[id as int].position,
            ),
    {
        let mut reverse_action = ReverseAction {
            action,
            picked_up_booster: None,
            picked_up_booster_position: Point2D::new(0, 0),
            wrapped_points: Vec::new(),
            robot_fuel_left: 0,
            made_two_moves: false,
            teleported_from: Point2D::new(0, 0),
        };
        let start = self.robots[id as usize].position;
        proof {
            lemma_collect_returned(self@, start);
        }
        self.maybe_collect_booster(start, &mut reverse_action);
        reverse_action.robot_fuel_left = self.robots[id as usize].fuel_left;
        reverse_action
    }

    /// Moves the agent by `d`, and once more where it has fuel and the next cell can be
    /// stepped on.
    fn advance(&mut self, id: u32, d: Point2D, reverse_action: &mut ReverseAction)
        requires
            old(self).wf(),
            id < old(self)@.robots.len(),
            -1 <= d.x <= 1,
            -1 <= d.y <= 1,
            old(self)@.grid.passable(
                old(self)@.robots[id as int].position.x + d.x,
                old(self)@.robots[id as int].position.y + d.y,
            ),
            old(self)@.robots[id as int].fuel_left > 0 ==> old(self)@.room_for(
                old(self)@.robots[id as int].position.plus(d),
            ),
        ensures
            final(self).wf(),
            final(self)@ == old(self)@.advance(id as int, d, old(reverse_action)@).state,
            final(reverse_action)@ == old(self)@.advance(id as int, d, old(reverse_action)@).undo,
    {
        let ghost begun = self@;
        let idx = id as usize;
        let start = self.robots[idx].position;
        self.robots[idx].position = start + d;
        assert(self@.robots =~= begun.robots.update(
            id as int,
            begun.robots[id as int].with_position(start.plus(d)),
        ));
        self.wrap(reverse_action);
        if self.robots[idx].fuel_left > 0 {
            let here = self.robots[idx].position;
            let ghost first = self@;
            proof {
                lemma_collect_returned(first, here);
            }
            self.maybe_collect_booster(here, reverse_action);
            let ghost taken = self@;
            let new_position = here + d;
            if self.grid.contains(new_position) && !self.grid[new_position].is_obstacle() {
                self.robots[idx].position = new_position;
                assert(self@.robots =~= taken.robots.update(
                    id as int,
                    taken.robots[id as int].with_position(here.plus(d)),
                ));
                self.wrap(reverse_action);
                reverse_action.made_two_moves = true;
            }
        }
    }

    /// Turns the agent by a quarter.
    fn turn(&mut self, id: u32, direction: RotationDirection, reverse_action: &mut ReverseAction)
        requires
            old(self).wf(),
            id < old(self)@.robots.len(),
        ensures
            final(self).wf(),
            final(self)@ == old(self)@.with_robot(
                id as int,
                old(self)@.robots[id as int].with_orientation(
                    old(self)@.robots[id as int].orientation.turned(direction),
                ),
            ).sweep(old(reverse_action)@).state,
            final(reverse_action)@ == old(self)@.with_robot(
                id as int,
                old(self)@.robots[id as int].with_orientation(
                    old(self)@.robots[id as int].orientation.turned(direction),
                ),
            ).sweep(old(reverse_action)@).undo,
    {
        let ghost begun = self@;
        self.robots[id as usize].rotate(direction);
        assert(self@.robots =~= begun.robots.update(
            id as int,
            begun.robots[id as int].with_orientation(
                begun.robots[id as int].orientation.turned(direction),
            ),
        ));
        self.wrap(reverse_action);
    }

    /// Uses an extra arm: the agent gets a sensor that points at `location`.
    fn attach(&mut self, id: u32, location: Point2D, reverse_action: &mut ReverseAction)
        requires
            old(self).wf(),
            id < old(self)@.robots.len(),
            old(self)@.collected.of(BoosterType::B) > 0,
            location.x > i32::MIN,
            location.y > i32::MIN,
        ensures
            final(self).wf(),
            final(self)@ == old(self)@.dispatch(
                id as int,
                Action::Attach(location),
                old(reverse_action)@,
            ).state,
            final(reverse_action)@ == old(self)@.dispatch(
                id as int,
                Action::Attach(location),
                old(reverse_action)@,
            ).undo,
    {
        let ghost begun = self@;
        let n = self.collected_boosters.get(BoosterType::B);
        self.collected_boosters.insert(BoosterType::B, n - 1);
        self.robots[id as usize].attach_tentacle(location);
        assert(self@.robots =~= begun.robots.update(
            id as int,
            begun.robots[id as int].with_tentacles(
                begun.robots[id as int].tentacles.push(begun.robots[id as int].offset_for(location)),
            ),
        ));
        self.wrap(reverse_action);
    }

    /// Uses a speed boost: the agent gets the fuel of one boost.
    fn accelerate(&mut self, id: u32)
        requires
            old(self).wf(),
            id < old(self)@.robots.len(),
            old(self)@.collected.of(BoosterType::F) > 0,
            old(self)@.robots[id as int].fuel_left + 50 <= u16::MAX,
        ensures
            final(self).wf(),
            final(self)@ == old(self)@.with_count(
                BoosterType::F,
                old(self)@.collected.of(BoosterType::F) - 1,
            ).with_robot(
                id as int,
                old(self)@.robots[id as int].with_fuel(
                    boosted(old(self)@.robots[id as int].fuel_left) as u16,
                ),
            ),
    {
        let ghost begun = self@;
        let idx = id as usize;
        let n = self.collected_boosters.get(BoosterType::F);
        self.collected_boosters.insert(BoosterType::F, n - 1);
        let fuel = self.robots[idx].fuel_left;
        self.robots[idx].fuel_left = fuel + FUEL_INITIAL_VALUE;
        if self.robots[idx].fuel_left == FUEL_INITIAL_VALUE {
            // makes up for the unit that the end of the step takes
            self.robots[idx].fuel_left = FUEL_INITIAL_VALUE + 1;
        }
        assert(self@.robots =~= begun.robots.update(
            id as int,
            begun.robots[id as int].with_fuel(boosted(begun.robots[id as int].fuel_left) as u16),
        ));
    }

    /// Uses a clone unit: a new agent appears where the agent stands.
    fn spawn(&mut self, id: u32, reverse_action: &mut ReverseAction)
        requires
            old(self).wf(),
            id < old(self)@.robots.len(),
            old(self)@.collected.of(BoosterType::C) > 0,
            old(self)@.robots.len() < u32::MAX,
        ensures
            final(self).wf(),
            final(self)@ == old(self)@.dispatch(id as int, Action::Clone, old(reverse_action)@).state,
            final(reverse_action)@ == old(self)@.dispatch(
                id as int,
                Action::Clone,
                old(reverse_action)@,
            ).undo,
    {
        let ghost begun = self@;
        let n = self.collected_boosters.get(BoosterType::C);
        self.collected_boosters.insert(BoosterType::C, n - 1);
        let position = self.robots[id as usize].position;
        let number: u8 = (self.robots.len() % 256) as u8;
        self.robots.push(Robot::new(number, position));
        assert(self@.robots =~= begun.robots.push(
            RobotView::fresh((begun.robots.len() % 256) as u8, begun.robots[id as int].position),
        ));
        assert(self@.valid()) by {
            assert forall|i: int| 0 <= i < self@.robots.len() implies self@.grid.passable(
                (#[trigger] self@.robots[i]).position.x as int,
                self@.robots[i].position.y as int,
            ) by {
                if i < begun.robots.len() {
                    assert(self@.robots[i] == begun.robots[i]);
                } else {
                    assert(self@.robots[i].position == begun.robots[id as int].position);
                }
            }
        }
        self.wrap(reverse_action);
    }

    /// Closes a step: the agent spends one unit of fuel, if it has any.
    fn spend(&mut self, id: u32)
        requires
            old(self).coherent(),
            id < old(self)@.robots.len(),
        ensures
            final(self).coherent(),
            final(self)@ == old(self)@.with_robot(
                id as int,
                old(self)@.robots[id as int].with_fuel(spent(old(self)@.robots[id as int].fuel_left)),
            ),
    {
        let ghost done = self@;
        let idx = id as usize;
        let fuel = self.robots[idx].fuel_left;
        self.robots[idx].fuel_left = if fuel > 0 {
            fuel - 1
        } else {
            0
        };
        assert(self@.robots =~= done.robots.update(
            id as int,
            done.robots[id as int].with_fuel(spent(done.robots[id as int].fuel_left)),
        ));
    }

    /// Whether a step stays within what the machine types can hold, so that `apply`
    /// can take it: see [`StateView::fits`].
    pub fn fits(&self, id: u32, action: Action) -> (b: bool)
        requires
            self.wf(),
            id < self@.robots.len(),
        ensures
            b == self@.fits(id as int, action),
    {
        let robot = &self.robots[id as usize];
        let under = match self.booster_at(robot.position) {
            Some(kind) => if kind == BoosterType::X {
                None
            } else {
                Some(kind)
            },
            None => None,
        };
        match under {
            Some(kind) => {
                if self.collected_boosters.get(kind) == u8::MAX {
                    return false;
                }
            },
            None => {},
        }
        match action {
            Action::MoveLeft | Action::MoveUp | Action::MoveRight | Action::MoveDown => {
                if robot.fuel_left == 0 {
                    return true;
                }
                let here = robot.position + action.move_point().unwrap();
                proof {
                    lemma_collect_counts(self@, robot.position, BoosterType::B);
                }
                match self.booster_at(here) {
                    Some(kind) => {
                        if kind == BoosterType::X {
                            true
                        } else {
                            let count = self.collected_boosters.get(kind);
                            match under {
                                Some(first) => if first == kind {
                                    count < u8::MAX - 1
                                } else {
                                    count < u8::MAX
                                },
                                None => count < u8::MAX,
                            }
                        }
                    },
                    None => true,
                }
            },
            Action::Attach(p) => p.x > i32::MIN && p.y > i32::MIN,
            Action::Accelerate => robot.fuel_left <= u16::MAX - FUEL_INITIAL_VALUE,
            Action::Clone => self.robots.len() < u32::MAX as usize,
            _ => true,
        }
    }

    /// Whether any cell is still free.
    pub fn has_wrappable_cells(&self) -> (b: bool)
        requires
            self.wf(),
        ensures
            b == (self@.grid.count(GridCell::Free) > 0),
    {
        self.grid.num_free > 0
    }
}

fn reversed(direction: RotationDirection) -> (back: RotationDirection)
    ensures
        back == opposite(direction),
{
    match direction {
        RotationDirection::CW => RotationDirection::CCW,
        RotationDirection::CCW => RotationDirection::CW,
    }
}

impl interface::State for State {
    type Action = Action;

    type ReverseAction = ReverseAction;

    open spec fn valid(&self) -> bool {
        self.wf()
    }

    open spec fn agents(&self) -> nat {
        self@.robots.len()
    }

    open spec fn done(&self) -> bool {
        self@.grid.count(GridCell::Free) == 0
    }

    open spec fn permits(&self, agent_id: u32, action: Action) -> bool {
        self@.applicable(agent_id as int, action)
    }

    open spec fn affords(&self, agent_id: u32, action: Action) -> bool {
        self@.fits(agent_id as int, action)
    }

    open spec fn reverts(&self, agent_id: u32, reverse_action: &ReverseAction) -> bool {
        self@.undoable(agent_id as int, reverse_action@)
    }

    fn info(&self) -> (text: String)
        ensures
            text@ == self@.description(),
    {
        let mut text = number_text(self.grid.width as u32);
        text.append("x");
        text.append(number_text(self.grid.height as u32).as_str());
        text.append(" grid, ");
        text.append(number_text(self.robots.len() as u32).as_str());
        text.append(" agent(s), ");
        text.append(number_text(self.grid.num_wrapped).as_str());
        text.append(" cell(s) covered, ");
        text.append(number_text(self.grid.num_free).as_str());
        text.append(" to cover");
        assert(text@ =~= self@.description());
        text
    }

    fn complete(&self) -> (b: bool) {
        !self.has_wrappable_cells()
    }

    fn agents_count(&self) -> (n: u32) {
        self.robots.len() as u32
    }

    fn can_apply(&self, id: u32, action: Action) -> (b: bool) {
        let robot = &self.robots[id as usize];
        assert(robot@ == self@.robots[id as int]);
        match action {
            Action::MoveLeft | Action::MoveUp | Action::MoveRight | Action::MoveDown => {
                let new_position = robot.position + action.move_point().unwrap();
                self.grid.contains(new_position) && !self.grid[new_position].is_obstacle()
            },
            Action::TurnCW | Action::TurnCCW => true,
            Action::Attach(location) => {
                self.collected_boosters.get(BoosterType::B) > 0 && robot.adjoins(location)
            },
            Action::Accelerate => self.collected_boosters.get(BoosterType::F) > 0,
            Action::Clone => {
                self.collected_boosters.get(BoosterType::C) > 0 && self.booster_at(robot.position)
                    == Some(BoosterType::X)
            },
            Action::NoOp => true,
            _ => false,
        }
    }

    fn apply(&mut self, id: u32, action: Action) -> (reverse_action: ReverseAction)
        ensures
            final(self)@ == old(self)@.step(id as int, action).state,
            reverse_action@ == old(self)@.step(id as int, action).undo,
            undone(old(self)@, id as int, action),
    {
        proof {
            lemma_step_undone(self@, id as int, action);
        }
        let mut reverse_action = self.begin(id, action);
        match action {
            Action::MoveLeft | Action::MoveUp | Action::MoveRight | Action::MoveDown => {
                self.advance(id, action.move_point().unwrap(), &mut reverse_action);
            },
            Action::TurnCW | Action::TurnCCW => {
                self.turn(id, action.rotation_direction().unwrap(), &mut reverse_action);
            },
            Action::Attach(location) => {
                self.attach(id, location, &mut reverse_action);
            },
            Action::Accelerate => {
                self.accelerate(id);
            },
            Action::Clone => {
                self.spawn(id, &mut reverse_action);
            },
            _ => {},
        }
        self.spend(id);
        reverse_action
    }

    fn unapply(&mut self, id: u32, reverse_action: ReverseAction) -> (action: Action)
        ensures
            final(self)@ == old(self)@.undo(id as int, reverse_action@),
            action == reverse_action.action,
    {
        let ghost record = reverse_action@;
        let idx = id as usize;
        match reverse_action.picked_up_booster {
            Some(type_) => {
                proof {
                    lemma_filed_insert(
                        self.boosters@,
                        reverse_action.picked_up_booster_position,
                        type_,
                    );
                }
                self.boosters.insert(key(reverse_action.picked_up_booster_position), type_);
                let n = self.collected_boosters.get(type_);
                self.collected_boosters.insert(type_, n - 1);
            },
            None => {},
        }
        let ghost eased = self@;
        match reverse_action.action {
            Action::MoveLeft | Action::MoveUp | Action::MoveRight | Action::MoveDown => {
                let d = reverse_action.action.move_point().unwrap();
                let mut back = self.robots[idx].position - d;
                if reverse_action.made_two_moves {
                    back = back - d;
                }
                self.robots[idx].position = back;
                assert(self@.robots =~= eased.robots.update(
                    id as int,
                    eased.robots[id as int].with_position(back),
                ));
                self.unwrap(&reverse_action);
            },
            Action::TurnCW | Action::TurnCCW => {
                let direction = reverse_action.action.rotation_direction().unwrap();
                self.robots[idx].rotate(reversed(direction));
                assert(self@.robots =~= eased.robots.update(
                    id as int,
                    eased.robots[id as int].with_orientation(
                        eased.robots[id as int].orientation.turned(opposite(direction)),
                    ),
                ));
                self.unwrap(&reverse_action);
            },
            Action::Attach(_) => {
                let n = self.collected_boosters.get(BoosterType::B);
                self.collected_boosters.insert(BoosterType::B, n + 1);
                self.robots[idx].detach_last_tentacle();
                assert(self@.robots =~= eased.robots.update(
                    id as int,
                    eased.robots[id as int].with_tentacles(
                        eased.robots[id as int].tentacles.drop_last(),
                    ),
                ));
                self.unwrap(&reverse_action);
            },
            Action::Accelerate => {
                let n = self.collected_boosters.get(BoosterType::F);
                self.collected_boosters.insert(BoosterType::F, n + 1);
            },
            Action::Clone => {
                let n = self.collected_boosters.get(BoosterType::C);
                self.collected_boosters.insert(BoosterType::C, n + 1);
                self.robots.pop();
                assert(self@.robots =~= eased.robots.drop_last());
                self.unwrap(&reverse_action);
            },
            _ => {},
        }
        let ghost undone = self@;
        self.robots[idx].fuel_left = reverse_action.robot_fuel_left;
        assert(self@.robots =~= undone.robots.update(
            id as int,
            undone.robots[id as int].with_fuel(record.robot_fuel_left),
        ));
        reverse_action.action
    }
}

} // verus!
