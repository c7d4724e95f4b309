use gridwrap::geometry::Point2D;
use gridwrap::grid::Grid;
use gridwrap::grid::GridCell;
use gridwrap::robot::Orientation;
use gridwrap::robot::Robot;
use gridwrap::robot::RotationDirection;

#[test]
fn a_new_robot_faces_right_with_three_sensors() {
    let robot = Robot::new(3, Point2D::new(4, 5));
    assert_eq!(robot.id, 3);
    assert_eq!(robot.position, Point2D::new(4, 5));
    assert_eq!(robot.orientation, Orientation::Right);
    assert_eq!(robot.fuel_left, 0);
    assert_eq!(robot.tentacles, vec![Point2D::new(1, 1), Point2D::new(1, -1), Point2D::new(1, 0)]);
}

#[test]
fn a_robot_in_the_open_sees_its_cell_and_three_more() {
    let grid = Grid::new(3, 3, GridCell::Free);
    let robot = Robot::new(0, Point2D::new(0, 1));
    assert_eq!(
        robot.get_visible_parts(&grid),
        vec![Point2D::new(0, 1), Point2D::new(1, 2), Point2D::new(1, 0), Point2D::new(1, 1)]
    );
}

#[test]
fn the_chain_stops_at_an_obstacle_and_the_pair_does_not() {
    let mut grid = Grid::new(3, 3, GridCell::Free);
    grid.set(Point2D::new(1, 1), GridCell::Obstacle);
    let robot = Robot::new(0, Point2D::new(0, 1));
    let parts = robot.get_visible_parts(&grid);
    assert_eq!(parts, vec![Point2D::new(0, 1), Point2D::new(1, 2), Point2D::new(1, 0)]);
    assert_eq!(parts.len() - 1, 2);
}

#[test]
fn nothing_behind_a_blocked_chain_sensor_is_seen() {
    let mut grid = Grid::new(5, 3, GridCell::Free);
    grid.set(Point2D::new(1, 1), GridCell::Obstacle);
    let mut robot = Robot::new(0, Point2D::new(0, 1));
    robot.attach_tentacle(Point2D::new(2, 0));
    robot.attach_tentacle(Point2D::new(3, 0));
    assert_eq!(
        robot.get_visible_parts(&grid),
        vec![Point2D::new(0, 1), Point2D::new(1, 2), Point2D::new(1, 0)]
    );
    grid.set(Point2D::new(1, 1), GridCell::Free);
    grid.set(Point2D::new(3, 1), GridCell::Void);
    assert_eq!(
        robot.get_visible_parts(&grid),
        vec![
            Point2D::new(0, 1),
            Point2D::new(1, 2),
            Point2D::new(1, 0),
            Point2D::new(1, 1),
            Point2D::new(2, 1)
        ]
    );
}

#[test]
fn one_blocked_pair_sensor_does_not_hide_the_other() {
    let mut grid = Grid::new(3, 3, GridCell::Free);
    grid.set(Point2D::new(1, 2), GridCell::Obstacle);
    let robot = Robot::new(0, Point2D::new(0, 1));
    assert_eq!(
        robot.get_visible_parts(&grid),
        vec![Point2D::new(0, 1), Point2D::new(1, 0), Point2D::new(1, 1)]
    );
}

#[test]
fn sensors_outside_the_grid_see_nothing() {
    let grid = Grid::new(1, 1, GridCell::Free);
    let robot = Robot::new(0, Point2D::new(0, 0));
    assert_eq!(robot.get_visible_parts(&grid), vec![Point2D::new(0, 0)]);
}

#[test]
fn a_turned_robot_looks_the_other_way() {
    let grid = Grid::new(3, 3, GridCell::Free);
    let mut robot = Robot::new(0, Point2D::new(1, 1));
    robot.rotate(RotationDirection::CW);
    assert_eq!(robot.orientation, Orientation::Down);
    assert_eq!(
        robot.get_visible_parts(&grid),
        vec![Point2D::new(1, 1), Point2D::new(2, 0), Point2D::new(0, 0), Point2D::new(1, 0)]
    );
    robot.rotate(RotationDirection::CCW);
    robot.rotate(RotationDirection::CCW);
    assert_eq!(robot.orientation, Orientation::Up);
    assert_eq!(
        robot.get_visible_parts(&grid),
        vec![Point2D::new(1, 1), Point2D::new(0, 2), Point2D::new(2, 2), Point2D::new(1, 2)]
    );
}

#[test]
fn an_attached_sensor_points_where_it_was_put() {
    for turns in 0..4 {
        let mut robot = Robot::new(0, Point2D::new(0, 0));
        for _ in 0..turns {
            robot.rotate(RotationDirection::CW);
        }
        let p = Point2D::new(2, -1);
        robot.attach_tentacle(p);
        assert_eq!(robot.tentacles.len(), 4);
        assert_eq!(robot.orientation.apply_to(robot.tentacles[3]), p);
        robot.detach_last_tentacle();
        assert_eq!(
            robot.tentacles,
            vec![Point2D::new(1, 1), Point2D::new(1, -1), Point2D::new(1, 0)]
        );
    }
}

#[test]
fn the_next_attachment_point_lies_one_step_beyond_the_farthest_sensor() {
    let mut robot = Robot::new(0, Point2D::new(7, 7));
    assert_eq!(robot.next_attachment_point(), Point2D::new(2, 0));
    robot.attach_tentacle(Point2D::new(2, 0));
    assert_eq!(robot.next_attachment_point(), Point2D::new(3, 0));
    robot.rotate(RotationDirection::CW);
    assert_eq!(robot.next_attachment_point(), Point2D::new(0, -3));
}

#[test]
fn a_place_adjoins_a_sensor_at_distance_one() {
    let robot = Robot::new(0, Point2D::new(5, 5));
    assert!(robot.adjoins(Point2D::new(2, 0)));
    assert!(robot.adjoins(Point2D::new(1, 2)));
    assert!(robot.adjoins(Point2D::new(0, 0)));
    assert!(!robot.adjoins(Point2D::new(3, 0)));
    assert!(!robot.adjoins(Point2D::new(-1, 0)));
    assert!(!robot.adjoins(Point2D::new(i32::MIN, i32::MAX)));
}
