use gridwrap::geometry::Point2D;
use gridwrap::grid::Grid;
use gridwrap::grid::GridCell;

#[test]
fn test_grid() {
    let mut grid = Grid::new(2, 2, GridCell::Obstacle);
    assert_eq!(grid.width, 2);
    assert_eq!(grid.height, 2);
    assert_eq!(grid.num_obstacles, 4);
    assert_eq!(grid.num_void, 0);
    assert_eq!(grid.num_wrapped, 0);
    assert_eq!(grid.num_free, 0);
    assert_eq!(grid.contains(Point2D::new(0, 0)), true);
    assert_eq!(grid.contains(Point2D::new(-1, 0)), false);
    assert_eq!(grid.contains(Point2D::new(0, -1)), false);
    assert_eq!(grid.contains(Point2D::new(1, 1)), true);
    assert_eq!(grid.contains(Point2D::new(2, 1)), false);
    assert_eq!(grid.contains(Point2D::new(1, 2)), false);
    grid.set(Point2D::new(0, 1), GridCell::Void);
    grid.set(Point2D::new(1, 0), GridCell::Wrapped);
    grid.set(Point2D::new(1, 1), GridCell::Free);
    assert_eq!(grid[Point2D::new(0, 0)], GridCell::Obstacle);
    assert_eq!(grid[Point2D::new(0, 1)], GridCell::Void);
    assert_eq!(grid[Point2D::new(1, 0)], GridCell::Wrapped);
    assert_eq!(grid[Point2D::new(1, 1)], GridCell::Free);
    assert_eq!(grid.num_obstacles, 1);
    assert_eq!(grid.num_void, 1);
    assert_eq!(grid.num_wrapped, 1);
    assert_eq!(grid.num_free, 1);
}

#[test]
fn blocked_cells_are_obstacle_and_void() {
    assert!(GridCell::Obstacle.is_obstacle());
    assert!(GridCell::Void.is_obstacle());
    assert!(!GridCell::Wrapped.is_obstacle());
    assert!(!GridCell::Free.is_obstacle());
}

#[test]
fn counters_always_add_up_to_the_area() {
    let mut grid = Grid::new(7, 5, GridCell::Void);
    let states = [GridCell::Obstacle, GridCell::Void, GridCell::Wrapped, GridCell::Free];
    assert_eq!(grid.num_void, 35);
    let mut turn = 0;
    for y in 0..5 {
        for x in 0..7 {
            grid.set(Point2D::new(x, y), states[turn % 4]);
            turn += 3;
            assert_eq!(grid.num_obstacles + grid.num_void + grid.num_wrapped + grid.num_free, 35);
        }
    }
    let mut seen = [0u32; 4];
    for y in 0..5 {
        for x in 0..7 {
            match grid[Point2D::new(x, y)] {
                GridCell::Obstacle => seen[0] += 1,
                GridCell::Void => seen[1] += 1,
                GridCell::Wrapped => seen[2] += 1,
                GridCell::Free => seen[3] += 1,
            }
        }
    }
    assert_eq!(seen, [grid.num_obstacles, grid.num_void, grid.num_wrapped, grid.num_free]);
}

#[test]
fn setting_a_cell_to_its_own_state_changes_nothing() {
    let mut grid = Grid::new(3, 2, GridCell::Free);
    grid.set(Point2D::new(2, 1), GridCell::Free);
    assert_eq!(grid.num_free, 6);
    assert_eq!(grid[Point2D::new(2, 1)], GridCell::Free);
}

#[test]
fn a_large_grid_counts_all_its_cells() {
    let grid = Grid::new(300, 300, GridCell::Free);
    assert_eq!(grid.num_free, 90000);
    assert_eq!(grid[Point2D::new(299, 299)], GridCell::Free);
}

#[test]
fn an_empty_grid_contains_nothing() {
    let grid = Grid::new(0, 4, GridCell::Free);
    assert_eq!(grid.num_free, 0);
    assert!(!grid.contains(Point2D::new(0, 0)));
}

#[test]
fn rows_are_stored_one_after_the_other() {
    let mut grid = Grid::new(3, 2, GridCell::Void);
    grid.set(Point2D::new(2, 0), GridCell::Free);
    grid.set(Point2D::new(0, 1), GridCell::Wrapped);
    assert_eq!(
        grid.grid,
        vec![
            GridCell::Void,
            GridCell::Void,
            GridCell::Free,
            GridCell::Wrapped,
            GridCell::Void,
            GridCell::Void
        ]
    );
}
