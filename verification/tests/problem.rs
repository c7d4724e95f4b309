use gridwrap::geometry::Point2D;
use gridwrap::grid::Grid;
use gridwrap::grid::GridCell;
use gridwrap::interface::State as Simulation;
use gridwrap::problem::Groups;
use gridwrap::problem::ParseError;
use gridwrap::problem::Patterns;
use gridwrap::problem::Problem;
use gridwrap::raster::Poly;
use gridwrap::state::Action;
use gridwrap::state::Booster;
use gridwrap::state::BoosterType;
use gridwrap::text::chars_of;
use gridwrap::text::number_text;
use gridwrap::text::parse_number;
use gridwrap::text::pieces;

fn patterns() -> Patterns {
    match Patterns::new() {
        Ok(patterns) => patterns,
        Err(e) => panic!("the patterns do not compile: {:?}", e),
    }
}

fn square(side: i32) -> Poly {
    Poly::new(vec![
        Point2D::new(0, 0),
        Point2D::new(0, side),
        Point2D::new(side, side),
        Point2D::new(side, 0),
    ])
}

#[test]
fn test_parsing() {
    let patterns = patterns();
    assert_eq!(Problem::parse_point(&patterns, "(0,1)"), Ok(Point2D::new(0, 1)));
    assert_eq!(
        Problem::parse_points(&patterns, "(0,1),(1,0)"),
        Ok(vec!(Point2D::new(0, 1), Point2D::new(1, 0)))
    );
    assert_eq!(
        Problem::parse_booster(&patterns, "B(1,0)"),
        Ok(Booster { type_: BoosterType::B, position: Point2D::new(1, 0) })
    );
}

#[test]
fn rasterizer_parity_example() {
    let mut grid = Grid::new(4, 4, GridCell::Void);
    square(4).project(&mut grid, GridCell::Free);
    assert_eq!(grid.width, 4);
    assert_eq!(grid.height, 4);
    assert_eq!(grid.num_free, 16);
    assert_eq!(grid.num_obstacles, 0);
    assert_eq!(grid.num_void, 0);
    assert_eq!(grid.num_wrapped, 0);
    for y in 0..4 {
        for x in 0..4 {
            assert_eq!(grid[Point2D::new(x, y)], GridCell::Free);
        }
    }
}

#[test]
fn a_hole_is_filled_over_the_map() {
    let mut grid = Grid::new(4, 4, GridCell::Void);
    square(4).project(&mut grid, GridCell::Free);
    let hole = Poly::new(vec![
        Point2D::new(1, 1),
        Point2D::new(3, 1),
        Point2D::new(3, 2),
        Point2D::new(1, 2),
    ]);
    hole.project(&mut grid, GridCell::Obstacle);
    assert_eq!(grid.num_obstacles, 2);
    assert_eq!(grid.num_free, 14);
    for y in 0..4 {
        for x in 0..4 {
            let expected = if y == 1 && (x == 1 || x == 2) { GridCell::Obstacle } else { GridCell::Free };
            assert_eq!(grid[Point2D::new(x, y)], expected);
        }
    }
}

#[test]
fn an_l_shaped_map_leaves_its_notch_void() {
    let mut grid = Grid::new(3, 3, GridCell::Void);
    let shape = Poly::new(vec![
        Point2D::new(0, 0),
        Point2D::new(3, 0),
        Point2D::new(3, 1),
        Point2D::new(1, 1),
        Point2D::new(1, 3),
        Point2D::new(0, 3),
    ]);
    assert!(shape.is_orthogonal());
    shape.project(&mut grid, GridCell::Free);
    assert_eq!(
        grid.grid,
        vec![
            GridCell::Free,
            GridCell::Free,
            GridCell::Free,
            GridCell::Free,
            GridCell::Void,
            GridCell::Void,
            GridCell::Free,
            GridCell::Void,
            GridCell::Void
        ]
    );
    assert_eq!(grid.num_free, 5);
    assert_eq!(grid.num_void, 4);
}

#[test]
fn a_fill_keeps_to_the_cells_of_the_grid() {
    let mut grid = Grid::new(2, 3, GridCell::Void);
    square(4).project(&mut grid, GridCell::Free);
    assert_eq!(grid.num_free, 4);
    assert_eq!(grid[Point2D::new(0, 0)], GridCell::Free);
    assert_eq!(grid[Point2D::new(1, 1)], GridCell::Free);
    assert_eq!(grid[Point2D::new(0, 2)], GridCell::Void);
    assert_eq!(grid[Point2D::new(1, 2)], GridCell::Void);
}

#[test]
fn bounding_box_of_a_contour() {
    assert_eq!(square(4).bbox(), (Point2D::new(0, 0), Point2D::new(4, 4)));
    let shifted = Poly::new(vec![Point2D::new(2, 3), Point2D::new(2, 5), Point2D::new(7, 5), Point2D::new(7, 3)]);
    assert_eq!(shifted.bbox(), (Point2D::new(2, 3), Point2D::new(7, 5)));
    let below = Poly::new(vec![Point2D::new(-2, -3), Point2D::new(-1, -3)]);
    assert_eq!(below.bbox(), (Point2D::new(-2, -3), Point2D::new(0, 0)));
    assert_eq!(Poly::new(vec![]).bbox(), (Point2D::new(i32::MAX, i32::MAX), Point2D::new(0, 0)));
}

#[test]
fn orthogonal_contours_have_only_axis_aligned_edges() {
    assert!(square(4).is_orthogonal());
    assert!(Poly::new(vec![]).is_orthogonal());
    assert!(Poly::new(vec![Point2D::new(1, 1)]).is_orthogonal());
    assert!(!Poly::new(vec![Point2D::new(0, 0), Point2D::new(1, 1)]).is_orthogonal());
    assert!(!Poly::new(vec![Point2D::new(0, 0), Point2D::new(0, 2), Point2D::new(2, 3)]).is_orthogonal());
}

#[test]
fn contains_counts_the_rising_edges_to_the_right() {
    let poly = square(4);
    assert!(poly.contains(Point2D::new(1, 1)));
    assert!(!poly.contains(Point2D::new(-1, 1)));
    assert!(poly.contains(Point2D::new(5, 1)));
    assert!(poly.contains(Point2D::new(-1, 4)));
    assert!(poly.contains(Point2D::new(-1, -1)));
    assert!(!poly.contains(Point2D::new(-1, 0)));
}

#[test]
fn numbers_are_decimal_and_fit_32_bits() {
    assert_eq!(parse_number("0"), Some(0));
    assert_eq!(parse_number("007"), Some(7));
    assert_eq!(parse_number("1234567890"), Some(1234567890));
    assert_eq!(parse_number("2147483647"), Some(2147483647));
    assert_eq!(parse_number("2147483648"), None);
    assert_eq!(parse_number("99999999999999999999999999"), None);
    assert_eq!(parse_number(""), None);
    assert_eq!(parse_number("12a"), None);
    assert_eq!(parse_number("-1"), None);
    assert_eq!(parse_number("+1"), None);
    assert_eq!(parse_number("\u{0661}"), None);
}

#[test]
fn text_splits_at_every_separator() {
    assert_eq!(pieces("a#b#c", '#'), vec!["a", "b", "c"]);
    assert_eq!(pieces("", '#'), vec![""]);
    assert_eq!(pieces("#", '#'), vec!["", ""]);
    assert_eq!(pieces("ab", '#'), vec!["ab"]);
    assert_eq!(pieces("a##b#", '#'), vec!["a", "", "b", ""]);
    assert_eq!(pieces("\u{00e9};\u{4e2d}\u{6587};x", ';'), vec!["\u{00e9}", "\u{4e2d}\u{6587}", "x"]);
    assert_eq!(chars_of("a\u{00e9}b"), vec!['a', '\u{00e9}', 'b']);
}

#[test]
fn groups_become_points() {
    let groups = Groups { first: Some("12".to_string()), second: Some("7".to_string()) };
    assert_eq!(Problem::point_from(&groups), Ok(Point2D::new(12, 7)));
    let missing = Groups { first: Some("12".to_string()), second: None };
    assert_eq!(Problem::point_from(&missing), Err(ParseError::Number));
    let huge = Groups { first: Some("4294967296".to_string()), second: Some("7".to_string()) };
    assert_eq!(Problem::point_from(&huge), Err(ParseError::Number));
    assert_eq!(Problem::single_point_from(&None), Err(ParseError::Point));
    assert_eq!(Problem::single_point_from(&Some(groups)), Ok(Point2D::new(12, 7)));
    assert_eq!(Problem::points_from(&vec![]), Ok(vec![]));
    assert_eq!(
        Problem::points_from(&vec![
            Groups { first: Some("1".to_string()), second: Some("2".to_string()) },
            Groups { first: Some("3".to_string()), second: Some("4".to_string()) }
        ]),
        Ok(vec![Point2D::new(1, 2), Point2D::new(3, 4)])
    );
    assert_eq!(
        Problem::points_from(&vec![
            Groups { first: Some("1".to_string()), second: Some("2".to_string()) },
            Groups { first: None, second: Some("4".to_string()) },
            Groups { first: Some("5".to_string()), second: Some("6".to_string()) }
        ]),
        Err(ParseError::Number)
    );
}

#[test]
fn points_are_found_by_the_patterns() {
    let patterns = patterns();
    assert_eq!(Problem::parse_point(&patterns, "(12,345)"), Ok(Point2D::new(12, 345)));
    assert_eq!(Problem::parse_point(&patterns, "(0,1),(1,0)"), Err(ParseError::Point));
    assert_eq!(Problem::parse_point(&patterns, " (0,1)"), Err(ParseError::Point));
    assert_eq!(Problem::parse_point(&patterns, "(-1,1)"), Err(ParseError::Point));
    assert_eq!(Problem::parse_point(&patterns, ""), Err(ParseError::Point));
    assert_eq!(Problem::parse_point(&patterns, "(1,99999999999)"), Err(ParseError::Number));
    assert_eq!(Problem::parse_point(&patterns, "(\u{0661},2)"), Err(ParseError::Number));
    assert_eq!(Problem::parse_points(&patterns, ""), Ok(vec![]));
    assert_eq!(Problem::parse_points(&patterns, "(3,4)"), Ok(vec![Point2D::new(3, 4)]));
    assert_eq!(
        Problem::parse_points(&patterns, "(0,1)x(1,0),(2,2)"),
        Ok(vec![Point2D::new(1, 0), Point2D::new(2, 2)])
    );
    assert_eq!(Problem::parse_points(&patterns, "(0,1),(99999999999,0)"), Err(ParseError::Number));
}

#[test]
fn pickups_begin_with_the_letter_of_their_kind() {
    let patterns = patterns();
    let kinds = [
        ("B", BoosterType::B),
        ("C", BoosterType::C),
        ("F", BoosterType::F),
        ("L", BoosterType::L),
        ("R", BoosterType::R),
        ("X", BoosterType::X),
    ];
    for (letter, kind) in kinds {
        assert_eq!(
            Problem::parse_booster(&patterns, &format!("{}(3,14)", letter)),
            Ok(Booster { type_: kind, position: Point2D::new(3, 14) })
        );
    }
    assert_eq!(Problem::parse_booster(&patterns, ""), Err(ParseError::Booster));
    assert_eq!(Problem::parse_booster(&patterns, "Z(1,0)"), Err(ParseError::Booster));
    assert_eq!(Problem::parse_booster(&patterns, "b(1,0)"), Err(ParseError::Booster));
    assert_eq!(Problem::parse_booster(&patterns, "\u{00e9}(1,0)"), Err(ParseError::Booster));
    assert_eq!(Problem::parse_booster(&patterns, "B"), Err(ParseError::Point));
    assert_eq!(Problem::parse_booster(&patterns, "B(1,0);"), Err(ParseError::Point));
    assert_eq!(Problem::parse_booster(&patterns, "B(1,99999999999)"), Err(ParseError::Number));
}

fn error_of(text: &str) -> ParseError {
    match Problem::parse(&patterns(), text.to_string()) {
        Ok(_) => panic!("{} was read", text),
        Err(e) => e,
    }
}

#[test]
fn a_task_becomes_a_state() {
    let text = "(0,0),(4,0),(4,4),(0,4)#(0,0)#(1,1),(3,1),(3,2),(1,2);(3,3),(4,3),(4,4),(3,4)#B(0,1);X(3,0);;F(2,3)";
    let state = match Problem::parse(&patterns(), text.to_string()) {
        Ok(state) => state,
        Err(e) => panic!("not read: {:?}", e),
    };
    let grid = state.grid();
    assert_eq!(grid.width, 4);
    assert_eq!(grid.height, 4);
    assert_eq!(grid.num_void, 0);
    assert_eq!(grid.num_obstacles, 3);
    assert_eq!(grid.num_free, 13);
    assert_eq!(grid.num_wrapped, 0);
    for y in 0..4 {
        for x in 0..4 {
            let blocked = (y == 1 && (x == 1 || x == 2)) || (x == 3 && y == 3);
            assert_eq!(grid[Point2D::new(x, y)].is_obstacle(), blocked);
        }
    }
    assert_eq!(state.agents_count(), 1);
    assert_eq!(state.robot(0).position, Point2D::new(0, 0));
    assert_eq!(state.booster_at(Point2D::new(0, 1)), Some(BoosterType::B));
    assert_eq!(state.booster_at(Point2D::new(3, 0)), Some(BoosterType::X));
    assert_eq!(state.booster_at(Point2D::new(2, 3)), Some(BoosterType::F));
    assert_eq!(state.booster_at(Point2D::new(0, 0)), None);
    assert!(state.can_apply(0, Action::MoveUp));
    assert!(state.can_apply(0, Action::MoveRight));
    assert!(!state.can_apply(0, Action::MoveLeft));
}

#[test]
fn contour_coordinates_are_grid_coordinates() {
    let text = "(0,0),(3,0),(3,1),(1,1),(1,3),(0,3)#(0,2)##";
    let state = match Problem::parse(&patterns(), text.to_string()) {
        Ok(state) => state,
        Err(e) => panic!("not read: {:?}", e),
    };
    let grid = state.grid();
    assert_eq!((grid.width, grid.height), (3, 3));
    for (x, y) in [(0, 0), (1, 0), (2, 0), (0, 1), (0, 2)] {
        assert_eq!(grid[Point2D::new(x, y)], GridCell::Free);
    }
    for (x, y) in [(1, 1), (2, 1), (1, 2), (2, 2)] {
        assert_eq!(grid[Point2D::new(x, y)], GridCell::Void);
    }
}

#[test]
fn the_width_of_the_grid_is_the_extent_along_y() {
    let text = "(0,0),(5,0),(5,2),(0,2)#(0,0)##";
    let state = match Problem::parse(&patterns(), text.to_string()) {
        Ok(state) => state,
        Err(e) => panic!("not read: {:?}", e),
    };
    assert_eq!(state.grid().width, 2);
    assert_eq!(state.grid().height, 5);
    assert_eq!(state.grid().num_free, 4);
    assert_eq!(state.grid().num_void, 6);
}

#[test]
fn each_malformed_task_has_its_error() {
    assert_eq!(error_of(""), ParseError::Sections);
    assert_eq!(error_of("(0,0),(1,0),(1,1),(0,1)#(0,0)#"), ParseError::Sections);
    assert_eq!(error_of("(0,0),(1,0),(1,1),(0,1)#(0,0)###"), ParseError::Sections);
    assert_eq!(error_of("(0,0),(1,0),(1,1),(0,1)#0,0##"), ParseError::Point);
    assert_eq!(error_of("(0,0),(1,0),(1,1),(0,1)#(0,0)##B0,0"), ParseError::Point);
    assert_eq!(error_of("(0,0),(1,0),(1,1),(0,1)#(0,0)##Q(0,0)"), ParseError::Booster);
    assert_eq!(error_of("(0,0),(99999999999,0),(1,1),(0,1)#(0,0)##"), ParseError::Number);
    assert_eq!(error_of("(0,0),(1,0),(1,1),(0,1)#(0,0)#(0,0),(0,99999999999)#"), ParseError::Number);
    assert_eq!(error_of("(1,0),(2,0),(2,1),(1,1)#(1,0)##"), ParseError::NotAnchored);
    assert_eq!(error_of("(0,1),(1,1),(1,2),(0,2)#(0,1)##"), ParseError::NotAnchored);
    assert_eq!(error_of("#(0,0)##"), ParseError::NotAnchored);
    assert_eq!(error_of("(0,0),(70000,0),(70000,1),(0,1)#(0,0)##"), ParseError::TooLarge);
    assert_eq!(error_of("(0,0),(1,0),(1,70000),(0,70000)#(0,0)##"), ParseError::TooLarge);
    assert_eq!(error_of("(0,0),(2,0),(1,2)#(0,0)##"), ParseError::NotOrthogonal);
    assert_eq!(error_of("(0,0),(4,0),(4,4),(0,4)#(0,0)#(1,1),(2,2),(1,2)#"), ParseError::NotOrthogonal);
    assert_eq!(error_of("(0,0),(2,0),(2,2),(0,2)#(2,2)##"), ParseError::Start);
    assert_eq!(error_of("(0,0),(2,0),(2,2),(0,2)#(0,0)#(0,0),(1,0),(1,1),(0,1)#"), ParseError::Start);
}

#[test]
fn the_parts_of_a_task_make_the_state() {
    let state = match Problem::assemble(
        square(3),
        vec![Poly::new(vec![Point2D::new(1, 1), Point2D::new(2, 1), Point2D::new(2, 2), Point2D::new(1, 2)])],
        vec![Booster { type_: BoosterType::C, position: Point2D::new(2, 2) }],
        Point2D::new(2, 0),
    ) {
        Ok(state) => state,
        Err(e) => panic!("not made: {:?}", e),
    };
    assert_eq!(state.grid().num_free, 8);
    assert_eq!(state.grid().num_obstacles, 1);
    assert_eq!(state.grid()[Point2D::new(1, 1)], GridCell::Obstacle);
    assert_eq!(state.robot(0).position, Point2D::new(2, 0));
    assert_eq!(state.booster_at(Point2D::new(2, 2)), Some(BoosterType::C));
    assert!(matches!(
        Problem::assemble(square(3), vec![], vec![], Point2D::new(3, 0)),
        Err(ParseError::Start)
    ));
}

#[test]
fn numbers_are_written_without_leading_zeros() {
    assert_eq!(number_text(0), "0");
    assert_eq!(number_text(7), "7");
    assert_eq!(number_text(10), "10");
    assert_eq!(number_text(1234567890), "1234567890");
    assert_eq!(number_text(u32::MAX), "4294967295");
    for n in [0u32, 9, 10, 99, 100, 65535, 2147483647] {
        assert_eq!(parse_number(&number_text(n)), Some(n as i32));
    }
}
