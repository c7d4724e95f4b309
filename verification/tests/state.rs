use gridwrap::geometry::Point2D;
use gridwrap::grid::Grid;
use gridwrap::grid::GridCell;
use gridwrap::interface::State as Simulation;
use gridwrap::robot::Orientation;
use gridwrap::state::Action;
use gridwrap::state::Booster;
use gridwrap::state::BoosterType;
use gridwrap::state::ReverseAction;
use gridwrap::state::State;

const KINDS: [BoosterType; 6] = [
    BoosterType::B,
    BoosterType::F,
    BoosterType::L,
    BoosterType::X,
    BoosterType::R,
    BoosterType::C,
];

fn booster(type_: BoosterType, x: i32, y: i32) -> Booster {
    Booster { type_, position: Point2D::new(x, y) }
}

fn corridor(length: u16, boosters: Vec<Booster>) -> State {
    State::new(Grid::new(length, 1, GridCell::Free), boosters, Point2D::new(0, 0))
}

/// Everything that can be seen of a state.
fn snapshot(state: &State) -> String {
    let grid = state.grid();
    let mut text = format!("{:?} {} {} {} {}", grid.grid, grid.num_obstacles, grid.num_void, grid.num_wrapped, grid.num_free);
    for id in 0..state.agents_count() {
        let robot = state.robot(id);
        text.push_str(&format!(
            " [{} {:?} {:?} {:?} {}]",
            robot.id, robot.position, robot.tentacles, robot.orientation, robot.fuel_left
        ));
    }
    for y in -1..(grid.height as i32 + 1) {
        for x in -1..(grid.width as i32 + 1) {
            text.push_str(&format!(" {:?}", state.booster_at(Point2D::new(x, y))));
        }
    }
    for kind in KINDS {
        text.push_str(&format!(" {}", state.collected(kind)));
    }
    text
}

fn step(state: &mut State, id: u32, action: Action) -> ReverseAction {
    assert!(state.can_apply(id, action), "{:?} is not possible", action);
    state.apply(id, action)
}

#[test]
fn a_new_state_has_one_agent_and_nothing_covered() {
    let state = corridor(3, vec![booster(BoosterType::B, 1, 0)]);
    assert_eq!(state.agents_count(), 1);
    assert_eq!(state.robot(0).position, Point2D::new(0, 0));
    assert_eq!(state.robot(0).id, 0);
    assert_eq!(state.grid().num_free, 3);
    assert_eq!(state.grid().num_wrapped, 0);
    assert!(state.has_wrappable_cells());
    assert!(!state.complete());
    assert_eq!(state.booster_at(Point2D::new(1, 0)), Some(BoosterType::B));
    assert_eq!(state.booster_at(Point2D::new(0, 0)), None);
    for kind in KINDS {
        assert_eq!(state.collected(kind), 0);
    }
}

#[test]
fn a_later_pickup_replaces_an_earlier_one_at_the_same_place() {
    let state = corridor(3, vec![booster(BoosterType::B, 1, 0), booster(BoosterType::F, 1, 0)]);
    assert_eq!(state.booster_at(Point2D::new(1, 0)), Some(BoosterType::F));
}

#[test]
fn moves_need_a_cell_to_step_on() {
    let mut grid = Grid::new(3, 3, GridCell::Free);
    grid.set(Point2D::new(1, 2), GridCell::Obstacle);
    grid.set(Point2D::new(0, 1), GridCell::Void);
    let state = State::new(grid, vec![], Point2D::new(1, 1));
    assert!(!state.can_apply(0, Action::MoveUp));
    assert!(!state.can_apply(0, Action::MoveLeft));
    assert!(state.can_apply(0, Action::MoveRight));
    assert!(state.can_apply(0, Action::MoveDown));
    let edge = State::new(Grid::new(2, 2, GridCell::Free), vec![], Point2D::new(0, 0));
    assert!(!edge.can_apply(0, Action::MoveLeft));
    assert!(!edge.can_apply(0, Action::MoveDown));
    assert!(edge.can_apply(0, Action::MoveUp));
    assert!(edge.can_apply(0, Action::MoveRight));
}

#[test]
fn turning_and_waiting_are_always_possible_and_reserved_actions_never() {
    let state = corridor(1, vec![]);
    assert!(state.can_apply(0, Action::TurnCW));
    assert!(state.can_apply(0, Action::TurnCCW));
    assert!(state.can_apply(0, Action::NoOp));
    assert!(!state.can_apply(0, Action::Drill));
    assert!(!state.can_apply(0, Action::InstallBeacon));
    assert!(!state.can_apply(0, Action::Teleport(Point2D::new(0, 0))));
    assert!(!state.can_apply(0, Action::Accelerate));
    assert!(!state.can_apply(0, Action::Clone));
    assert!(!state.can_apply(0, Action::Attach(Point2D::new(2, 0))));
}

#[test]
fn a_move_covers_what_the_agent_sees() {
    let mut state = State::new(Grid::new(4, 3, GridCell::Free), vec![], Point2D::new(0, 1));
    let undo = step(&mut state, 0, Action::MoveRight);
    assert_eq!(state.robot(0).position, Point2D::new(1, 1));
    assert_eq!(
        undo.wrapped_points,
        vec![
            (Point2D::new(1, 1), GridCell::Free),
            (Point2D::new(2, 2), GridCell::Free),
            (Point2D::new(2, 0), GridCell::Free),
            (Point2D::new(2, 1), GridCell::Free)
        ]
    );
    assert!(!undo.made_two_moves);
    assert_eq!(undo.action, Action::MoveRight);
    assert_eq!(undo.picked_up_booster, None);
    assert_eq!(state.grid().num_wrapped, 4);
    assert_eq!(state.grid().num_free, 8);
    assert_eq!(state.grid()[Point2D::new(2, 2)], GridCell::Wrapped);
    assert_eq!(state.grid()[Point2D::new(0, 1)], GridCell::Free);
}

#[test]
fn double_move() {
    let mut state = corridor(5, vec![booster(BoosterType::F, 0, 0)]);
    step(&mut state, 0, Action::NoOp);
    assert_eq!(state.collected(BoosterType::F), 1);
    step(&mut state, 0, Action::Accelerate);
    assert_eq!(state.robot(0).fuel_left, 50);
    for _ in 0..45 {
        step(&mut state, 0, Action::NoOp);
    }
    assert_eq!(state.robot(0).position, Point2D::new(0, 0));
    assert_eq!(state.robot(0).fuel_left, 5);
    let before = snapshot(&state);
    let undo = step(&mut state, 0, Action::MoveRight);
    assert_eq!(state.robot(0).position, Point2D::new(2, 0));
    assert_eq!(state.robot(0).fuel_left, 4);
    assert!(undo.made_two_moves);
    assert_eq!(undo.robot_fuel_left, 5);
    assert_eq!(state.unapply(0, undo), Action::MoveRight);
    assert_eq!(state.robot(0).position, Point2D::new(0, 0));
    assert_eq!(state.robot(0).fuel_left, 5);
    assert_eq!(snapshot(&state), before);
}

#[test]
fn a_second_move_needs_a_free_cell_ahead() {
    let mut state = corridor(2, vec![booster(BoosterType::F, 0, 0)]);
    step(&mut state, 0, Action::NoOp);
    step(&mut state, 0, Action::Accelerate);
    let before = snapshot(&state);
    let undo = step(&mut state, 0, Action::MoveRight);
    assert_eq!(state.robot(0).position, Point2D::new(1, 0));
    assert!(!undo.made_two_moves);
    assert_eq!(state.robot(0).fuel_left, 49);
    state.unapply(0, undo);
    assert_eq!(snapshot(&state), before);
}

#[test]
fn fuel_is_spent_once_a_step_and_never_below_zero() {
    let mut state = corridor(3, vec![booster(BoosterType::F, 0, 0), booster(BoosterType::F, 1, 0)]);
    step(&mut state, 0, Action::NoOp);
    assert_eq!(state.robot(0).fuel_left, 0);
    step(&mut state, 0, Action::MoveRight);
    step(&mut state, 0, Action::NoOp);
    assert_eq!(state.collected(BoosterType::F), 2);
    step(&mut state, 0, Action::Accelerate);
    assert_eq!(state.robot(0).fuel_left, 50);
    assert_eq!(state.collected(BoosterType::F), 1);
    step(&mut state, 0, Action::TurnCW);
    assert_eq!(state.robot(0).fuel_left, 49);
    let undo = step(&mut state, 0, Action::Accelerate);
    assert_eq!(undo.robot_fuel_left, 49);
    assert_eq!(state.robot(0).fuel_left, 98);
    assert_eq!(state.collected(BoosterType::F), 0);
    assert!(!state.can_apply(0, Action::Accelerate));
    state.unapply(0, undo);
    assert_eq!(state.robot(0).fuel_left, 49);
    assert_eq!(state.collected(BoosterType::F), 1);
}

#[test]
fn clone_requires_spawn() {
    let mut state = corridor(3, vec![booster(BoosterType::C, 0, 0), booster(BoosterType::X, 2, 0)]);
    assert!(!state.can_apply(0, Action::Clone));
    step(&mut state, 0, Action::NoOp);
    assert_eq!(state.collected(BoosterType::C), 1);
    assert!(!state.can_apply(0, Action::Clone));
    step(&mut state, 0, Action::MoveRight);
    assert!(!state.can_apply(0, Action::Clone));
    step(&mut state, 0, Action::MoveRight);
    assert_eq!(state.robot(0).position, Point2D::new(2, 0));
    assert!(state.can_apply(0, Action::Clone));
    let before = snapshot(&state);
    let undo = step(&mut state, 0, Action::Clone);
    assert_eq!(state.agents_count(), 2);
    assert_eq!(state.robot(1).id, 1);
    assert_eq!(state.robot(1).position, Point2D::new(2, 0));
    assert_eq!(state.robot(1).orientation, Orientation::Right);
    assert_eq!(state.collected(BoosterType::C), 0);
    assert_eq!(state.booster_at(Point2D::new(2, 0)), Some(BoosterType::X));
    assert!(!state.can_apply(0, Action::Clone));
    assert!(state.can_apply(1, Action::MoveLeft));
    assert_eq!(state.unapply(0, undo), Action::Clone);
    assert_eq!(state.agents_count(), 1);
    assert_eq!(snapshot(&state), before);
}

#[test]
fn a_spawn_marker_is_never_collected() {
    let mut state = corridor(2, vec![booster(BoosterType::X, 0, 0)]);
    let undo = step(&mut state, 0, Action::NoOp);
    assert_eq!(undo.picked_up_booster, None);
    assert_eq!(state.booster_at(Point2D::new(0, 0)), Some(BoosterType::X));
    assert_eq!(state.collected(BoosterType::X), 0);
}

#[test]
fn attaching_needs_an_arm_and_a_place_next_to_a_sensor() {
    let mut state = State::new(
        Grid::new(5, 3, GridCell::Free),
        vec![booster(BoosterType::B, 0, 1)],
        Point2D::new(0, 1),
    );
    assert!(!state.can_apply(0, Action::Attach(Point2D::new(2, 0))));
    step(&mut state, 0, Action::NoOp);
    assert_eq!(state.collected(BoosterType::B), 1);
    assert!(state.can_apply(0, Action::Attach(Point2D::new(2, 0))));
    assert!(!state.can_apply(0, Action::Attach(Point2D::new(3, 0))));
    let before = snapshot(&state);
    let undo = step(&mut state, 0, Action::Attach(Point2D::new(2, 0)));
    assert_eq!(state.collected(BoosterType::B), 0);
    assert_eq!(state.robot(0).tentacles.len(), 4);
    assert_eq!(state.robot(0).tentacles[3], Point2D::new(2, 0));
    assert_eq!(
        undo.wrapped_points,
        vec![
            (Point2D::new(0, 1), GridCell::Free),
            (Point2D::new(1, 2), GridCell::Free),
            (Point2D::new(1, 0), GridCell::Free),
            (Point2D::new(1, 1), GridCell::Free),
            (Point2D::new(2, 1), GridCell::Free)
        ]
    );
    assert_eq!(state.unapply(0, undo), Action::Attach(Point2D::new(2, 0)));
    assert_eq!(snapshot(&state), before);
}

#[test]
fn a_turn_is_taken_back_by_the_opposite_turn() {
    let mut state = State::new(Grid::new(3, 3, GridCell::Free), vec![], Point2D::new(1, 1));
    let before = snapshot(&state);
    let undo = step(&mut state, 0, Action::TurnCW);
    assert_eq!(state.robot(0).orientation, Orientation::Down);
    assert_eq!(state.grid().num_wrapped, 4);
    assert_eq!(state.unapply(0, undo), Action::TurnCW);
    assert_eq!(state.robot(0).orientation, Orientation::Right);
    assert_eq!(snapshot(&state), before);
    let undo = step(&mut state, 0, Action::TurnCCW);
    assert_eq!(state.robot(0).orientation, Orientation::Up);
    state.unapply(0, undo);
    assert_eq!(snapshot(&state), before);
}

fn playground() -> State {
    let mut grid = Grid::new(6, 5, GridCell::Free);
    grid.set(Point2D::new(3, 3), GridCell::Obstacle);
    grid.set(Point2D::new(5, 0), GridCell::Void);
    State::new(
        grid,
        vec![
            booster(BoosterType::B, 1, 0),
            booster(BoosterType::F, 2, 0),
            booster(BoosterType::C, 2, 1),
            booster(BoosterType::X, 2, 2),
            booster(BoosterType::L, 4, 4),
            booster(BoosterType::R, 0, 4),
        ],
        Point2D::new(0, 0),
    )
}

const PLAN: [(u32, Action); 16] = [
    (0, Action::MoveRight),
    (0, Action::MoveRight),
    (0, Action::TurnCCW),
    (0, Action::MoveUp),
    (0, Action::Attach(Point2D { x: 0, y: 2 })),
    (0, Action::MoveUp),
    (0, Action::Clone),
    (1, Action::MoveLeft),
    (0, Action::Accelerate),
    (1, Action::TurnCW),
    (0, Action::MoveRight),
    (1, Action::MoveUp),
    (0, Action::NoOp),
    (1, Action::MoveUp),
    (0, Action::MoveUp),
    (1, Action::TurnCW),
];

#[test]
fn steps_taken_back_in_reverse_order_restore_the_state() {
    let mut state = playground();
    let mut snapshots = vec![snapshot(&state)];
    let mut undos = Vec::new();
    for (id, action) in PLAN {
        undos.push((id, step(&mut state, id, action)));
        snapshots.push(snapshot(&state));
    }
    assert_eq!(state.agents_count(), 2);
    assert_ne!(snapshots[0], snapshots[PLAN.len()]);
    let mut at = PLAN.len();
    while let Some((id, undo)) = undos.pop() {
        assert_eq!(snapshot(&state), snapshots[at]);
        assert_eq!(state.unapply(id, undo), PLAN[at - 1].1);
        at -= 1;
    }
    assert_eq!(snapshot(&state), snapshots[0]);
}

#[test]
fn every_prefix_of_a_plan_can_be_taken_back() {
    for n in 0..=PLAN.len() {
        let mut state = playground();
        let start = snapshot(&state);
        let mut undos = Vec::new();
        for (id, action) in PLAN.iter().take(n) {
            undos.push((*id, step(&mut state, *id, *action)));
        }
        while let Some((id, undo)) = undos.pop() {
            state.unapply(id, undo);
        }
        assert_eq!(snapshot(&state), start);
    }
}

#[test]
fn covered_cells_stay_covered_while_stepping_forward() {
    let mut state = playground();
    let mut covered: Vec<Point2D> = Vec::new();
    for (id, action) in PLAN {
        let undo = step(&mut state, id, action);
        for p in covered.iter() {
            assert_eq!(state.grid()[*p], GridCell::Wrapped);
        }
        for (p, earlier) in undo.wrapped_points {
            assert_eq!(earlier, GridCell::Free);
            assert!(!covered.contains(&p));
            assert_eq!(state.grid()[p], GridCell::Wrapped);
            covered.push(p);
        }
        assert_eq!(state.grid().num_wrapped as usize, covered.len());
        assert_eq!(state.grid().num_free as usize, 28 - covered.len());
        assert_eq!(state.grid().num_obstacles, 1);
        assert_eq!(state.grid().num_void, 1);
    }
}

fn on_map(state: &State, kind: BoosterType) -> u32 {
    let mut n = 0;
    for y in 0..5 {
        for x in 0..6 {
            if state.booster_at(Point2D::new(x, y)) == Some(kind) {
                n += 1;
            }
        }
    }
    n
}

#[test]
fn pickups_leave_the_map_only_by_being_collected() {
    let mut state = playground();
    let mut removed = [0u32; 6];
    for (id, action) in PLAN {
        let before: Vec<u32> = KINDS.iter().map(|k| on_map(&state, *k)).collect();
        step(&mut state, id, action);
        for (i, kind) in KINDS.iter().enumerate() {
            let after = on_map(&state, *kind);
            assert!(after <= before[i]);
            removed[i] += before[i] - after;
            assert_eq!(removed[i] + after, 1);
            assert!(state.collected(*kind) as u32 <= removed[i]);
        }
        assert_eq!(on_map(&state, BoosterType::X), 1);
    }
    assert_eq!(removed, [1, 1, 0, 0, 0, 1]);
}

#[test]
fn two_pickups_in_one_step_leave_one_record() {
    let mut state = corridor(
        5,
        vec![booster(BoosterType::F, 0, 0), booster(BoosterType::L, 2, 0), booster(BoosterType::B, 3, 0)],
    );
    step(&mut state, 0, Action::NoOp);
    step(&mut state, 0, Action::Accelerate);
    step(&mut state, 0, Action::MoveRight);
    assert_eq!(state.robot(0).position, Point2D::new(2, 0));
    assert_eq!(state.collected(BoosterType::L), 0);
    assert_eq!(state.collected(BoosterType::B), 0);
    let before = snapshot(&state);
    let undo = step(&mut state, 0, Action::MoveRight);
    assert_eq!(state.robot(0).position, Point2D::new(4, 0));
    assert!(undo.made_two_moves);
    assert_eq!(state.collected(BoosterType::L), 1);
    assert_eq!(state.collected(BoosterType::B), 1);
    assert_eq!(undo.picked_up_booster, Some(BoosterType::B));
    assert_eq!(undo.picked_up_booster_position, Point2D::new(3, 0));
    state.unapply(0, undo);
    assert_eq!(state.robot(0).position, Point2D::new(2, 0));
    assert_eq!(state.robot(0).fuel_left, 49);
    assert_eq!(state.booster_at(Point2D::new(3, 0)), Some(BoosterType::B));
    assert_eq!(state.collected(BoosterType::B), 0);
    assert_eq!(state.booster_at(Point2D::new(2, 0)), None);
    assert_eq!(state.collected(BoosterType::L), 1);
    assert_eq!(state.grid().grid, vec![GridCell::Free, GridCell::Wrapped, GridCell::Wrapped, GridCell::Wrapped, GridCell::Free]);
    assert_ne!(snapshot(&state), before);
}

#[test]
fn the_state_is_complete_when_nothing_is_free() {
    let mut state = corridor(2, vec![]);
    assert!(!state.complete());
    step(&mut state, 0, Action::TurnCW);
    assert_eq!(state.grid().num_free, 1);
    assert!(!state.complete());
    step(&mut state, 0, Action::TurnCCW);
    assert!(state.complete());
    assert!(!state.has_wrappable_cells());
}

#[test]
fn info_describes_the_state() {
    let state = corridor(2, vec![]);
    assert_eq!(state.info(), "2x1 grid, 1 agent(s), 0 cell(s) covered, 2 to cover");
    let mut state = playground();
    for (id, action) in PLAN {
        step(&mut state, id, action);
    }
    let covered = state.grid().num_wrapped;
    assert!(covered >= 10);
    assert_eq!(
        state.info(),
        format!("6x5 grid, 2 agent(s), {} cell(s) covered, {} to cover", covered, 28 - covered)
    );
}

#[test]
fn move_points_and_rotation_directions() {
    assert_eq!(Action::MoveLeft.move_point(), Some(Point2D::new(-1, 0)));
    assert_eq!(Action::MoveUp.move_point(), Some(Point2D::new(0, 1)));
    assert_eq!(Action::MoveRight.move_point(), Some(Point2D::new(1, 0)));
    assert_eq!(Action::MoveDown.move_point(), Some(Point2D::new(0, -1)));
    assert_eq!(Action::NoOp.move_point(), None);
    assert_eq!(Action::TurnCW.move_point(), None);
    assert_eq!(Action::TurnCW.rotation_direction(), Some(gridwrap::robot::RotationDirection::CW));
    assert_eq!(Action::TurnCCW.rotation_direction(), Some(gridwrap::robot::RotationDirection::CCW));
    assert_eq!(Action::MoveUp.rotation_direction(), None);
    assert_eq!(Action::Clone.rotation_direction(), None);
}

#[test]
fn ordinary_steps_fit_the_machine_types() {
    let mut state = playground();
    for (id, action) in PLAN {
        assert!(state.fits(id, action));
        step(&mut state, id, action);
    }
    assert!(!state.fits(0, Action::Attach(Point2D::new(i32::MIN, 0))));
    assert!(!state.fits(0, Action::Attach(Point2D::new(0, i32::MIN))));
    assert!(state.fits(0, Action::Attach(Point2D::new(i32::MAX, i32::MAX))));
    assert!(state.fits(1, Action::Drill));
}

#[test]
fn fuel_that_would_overflow_does_not_fit() {
    let boosters: Vec<Booster> = (0..6).map(|_| booster(BoosterType::F, 0, 0)).collect();
    let mut state = corridor(2, boosters);
    step(&mut state, 0, Action::NoOp);
    assert_eq!(state.collected(BoosterType::F), 1);
    assert!(state.fits(0, Action::Accelerate));
    assert_eq!(state.robot(0).fuel_left, 0);
}
