use gridwrap::geometry::Point2D;
use gridwrap::robot::Orientation;
use gridwrap::robot::RotationDirection;

#[test]
fn test_point2d() {
    assert_eq!(-Point2D::new(-1, 1), Point2D::new(1, -1));
    assert_eq!(Point2D::new(-1, 1) + Point2D::new(1, 1), Point2D::new(0, 2));
    assert_eq!(Point2D::new(1, 1) - Point2D::new(1, -1), Point2D::new(0, 2));
    assert_eq!(Point2D::new(2, 3) * Point2D::new(-2, 4), 8);
}

#[test]
fn manhattan_distance_adds_both_axes() {
    assert_eq!(Point2D::new(0, 0).manhattan_dist(Point2D::new(0, 0)), 0);
    assert_eq!(Point2D::new(1, 2).manhattan_dist(Point2D::new(4, -2)), 7);
    assert_eq!(Point2D::new(-3, 5).manhattan_dist(Point2D::new(2, 5)), 5);
    assert_eq!(Point2D::new(4, -2).manhattan_dist(Point2D::new(1, 2)), 7);
}

#[test]
fn dot_product_of_extreme_coordinates() {
    assert_eq!(Point2D::new(i32::MAX, 0) * Point2D::new(1, 0), i32::MAX);
    assert_eq!(Point2D::new(i32::MIN, i32::MIN) * Point2D::new(0, 0), 0);
    assert_eq!(Point2D::new(46340, 0) * Point2D::new(46340, 0), 2147395600);
}

#[test]
fn clockwise_turns_run_left_up_right_down() {
    assert_eq!(Orientation::Left.rotate(RotationDirection::CW), Orientation::Up);
    assert_eq!(Orientation::Up.rotate(RotationDirection::CW), Orientation::Right);
    assert_eq!(Orientation::Right.rotate(RotationDirection::CW), Orientation::Down);
    assert_eq!(Orientation::Down.rotate(RotationDirection::CW), Orientation::Left);
    assert_eq!(Orientation::Left.rotate(RotationDirection::CCW), Orientation::Down);
    assert_eq!(Orientation::Up.rotate(RotationDirection::CCW), Orientation::Left);
    assert_eq!(Orientation::Right.rotate(RotationDirection::CCW), Orientation::Up);
    assert_eq!(Orientation::Down.rotate(RotationDirection::CCW), Orientation::Right);
}

#[test]
fn a_turn_and_its_reverse_cancel() {
    for o in [Orientation::Left, Orientation::Up, Orientation::Right, Orientation::Down] {
        assert_eq!(o.rotate(RotationDirection::CW).rotate(RotationDirection::CCW), o);
        assert_eq!(o.rotate(RotationDirection::CCW).rotate(RotationDirection::CW), o);
    }
}

#[test]
fn orientation_transforms_offsets() {
    let p = Point2D::new(2, 1);
    assert_eq!(Orientation::Right.apply_to(p), Point2D::new(2, 1));
    assert_eq!(Orientation::Down.apply_to(p), Point2D::new(1, -2));
    assert_eq!(Orientation::Left.apply_to(p), Point2D::new(-2, -1));
    assert_eq!(Orientation::Up.apply_to(p), Point2D::new(-1, 2));
}

#[test]
fn unapply_is_the_inverse_of_apply() {
    let points = [Point2D::new(2, 1), Point2D::new(-3, 7), Point2D::new(0, 0), Point2D::new(5, -4)];
    for o in [Orientation::Left, Orientation::Up, Orientation::Right, Orientation::Down] {
        for p in points {
            assert_eq!(o.unapply_to(o.apply_to(p)), p);
            assert_eq!(o.apply_to(o.unapply_to(p)), p);
        }
    }
}

#[test]
fn multiplier_gives_the_rows_of_the_rotation() {
    assert_eq!(Orientation::Right.multiplier(), (Point2D::new(1, 0), Point2D::new(0, 1)));
    assert_eq!(Orientation::Left.multiplier(), (Point2D::new(-1, 0), Point2D::new(0, -1)));
    assert_eq!(Orientation::Up.multiplier(), (Point2D::new(0, -1), Point2D::new(1, 0)));
    assert_eq!(Orientation::Down.multiplier(), (Point2D::new(0, 1), Point2D::new(-1, 0)));
}
