//! Reading a task: the text of a map, a start position, obstacles and pickups becomes a
//! simulation state.

use vstd::prelude::*;
use vstd::string::StrSliceExecFns;
use crate::geometry::Point2D;
use crate::grid::Grid;
use crate::grid::GridCell;
use crate::grid::GridView;
use crate::model::StateView;
use crate::raster::fill;
use crate::raster::least_x;
use crate::raster::lemma_most_at_least;
use crate::raster::least_y;
use crate::raster::most_x;
use crate::raster::most_y;
use crate::raster::orthogonal;
use crate::raster::Poly;
use crate::state::Booster;
use crate::state::BoosterType;
use crate::state::State;
use crate::text::number;
use crate::text::parse_number;
use crate::text::pieces;
use crate::text::split;

verus! {

/// The pattern that finds the points of a list: two numbers in brackets, followed by a
/// comma or by the end of the text.
pub const POINTS_PATTERN: &'static str = "\\((\\d+),(\\d+)\\)(?:,|$)";

/// The pattern that a text matches if it is one point and nothing else.
pub const POINT_PATTERN: &'static str = "^\\((\\d+),(\\d+)\\)$";

/// Why a task could not be read.
#[derive(PartialEq, Eq, Structural, Clone, Copy, Debug)]
pub enum ParseError {
    /// A pattern of the reader did not compile.
    Pattern,
    /// The text does not have four sections.
    Sections,
    /// A text that should be one point is none.
    Point,
    /// A coordinate is not a 32-bit number.
    Number,
    /// A pickup does not begin with the letter of a kind.
    Booster,
    /// The lowest corner of the map's bounding box is not the origin.
    NotAnchored,
    /// The map is wider or higher than a grid can be.
    TooLarge,
    /// An edge of the map or of an obstacle is neither vertical nor horizontal.
    NotOrthogonal,
    /// The start position is not a cell that an agent can stand on.
    Start,
}

/// `regex::Regex`, a compiled expression. Nothing is known of what it holds but
/// through the names below.
#[verifier::external_type_specification]
#[verifier::external_body]
pub struct ExRegex(regex::Regex);

/// `regex::Error`, the reason why a pattern did not compile. Nothing is known of it.
#[verifier::external_type_specification]
#[verifier::external_body]
pub struct ExRegexError(regex::Error);

/// The pattern that describes a compiled expression. For an expression that
/// `Regex::new` made it is the pattern that was given, which `Regex::as_str` returns;
/// of an expression made in another way nothing is said here.
pub uninterp spec fn regex_source(re: &regex::Regex) -> Seq<char>;

/// What the first match of a pattern in a text captured in its groups 1 and 2, or
/// nothing where the pattern does not match.
pub uninterp spec fn regex_first(pattern: Seq<char>, haystack: Seq<char>) -> Option<
    (Option<Seq<char>>, Option<Seq<char>>),
>;

/// What each of the successive matches of a pattern in a text captured in its groups 1
/// and 2, from left to right.
pub uninterp spec fn regex_all(pattern: Seq<char>, haystack: Seq<char>) -> Seq<
    (Option<Seq<char>>, Option<Seq<char>>),
>;

/// `regex::Regex::new` compiles a pattern. Where it succeeds, the expression is one
/// made from that pattern; when it succeeds is left open.
pub assume_specification[ regex::Regex::new ](re: &str) -> (r: Result<regex::Regex, regex::Error>)
    ensures
        r matches Ok(made) ==> regex_source(&made) == re@,
;

/// What a match captured in its first two groups; a group that took no part in the
/// match gives nothing.
pub struct Groups {
    pub first: Option<String>,
    pub second: Option<String>,
}

/// The text of a group, if there is one.
pub open spec fn shown(group: Option<String>) -> Option<Seq<char>> {
    match group {
        Some(text) => Some(text@),
        None => None,
    }
}

impl Groups {
    /// The texts of the two groups.
    pub open spec fn texts(self) -> (Option<Seq<char>>, Option<Seq<char>>) {
        (shown(self.first), shown(self.second))
    }
}

/// `Regex::captures` on the text, with groups 1 and 2 of the match copied out through
/// `Captures::get` and `Match::as_str`. The result is what the name `regex_first` gives
/// for the expression's pattern and the text.
#[verifier::external_body]
fn first_match(re: &regex::Regex, haystack: &str) -> (found: Option<Groups>)
    ensures
        match found {
            Some(groups) => regex_first(regex_source(re), haystack@) == Some(groups.texts()),
            None => regex_first(regex_source(re), haystack@).is_none(),
        },
{
    re.captures(haystack).map(
        |c|
            Groups {
                first: c.get(1).map(|m| m.as_str().to_string()),
                second: c.get(2).map(|m| m.as_str().to_string()),
            },
    )
}

/// `Regex::captures_iter` on the text, with groups 1 and 2 of each match copied out
/// through `Captures::get` and `Match::as_str`. The result is what the name `regex_all`
/// gives for the expression's pattern and the text.
#[verifier::external_body]
fn all_matches(re: &regex::Regex, haystack: &str) -> (found: Vec<Groups>)
    ensures
        found@.len() == regex_all(regex_source(re), haystack@).len(),
        forall|i: int|
            0 <= i < found@.len() ==> (#[trigger] found@[i]).texts() == regex_all(
                regex_source(re),
                haystack@,
            )[i],
{
    re.captures_iter(haystack).map(
        |c|
            Groups {
                first: c.get(1).map(|m| m.as_str().to_string()),
                second: c.get(2).map(|m| m.as_str().to_string()),
            },
    ).collect()
}

/// The compiled patterns of the reader, made once and handed to each call.
pub struct Patterns {
    points: regex::Regex,
    point: regex::Regex,
}

impl Patterns {
    /// The two expressions are made from the two patterns of the reader.
    pub closed spec fn wf(&self) -> bool {
        &&& regex_source(&self.points) == POINTS_PATTERN@
        &&& regex_source(&self.point) == POINT_PATTERN@
    }

    /// Compiles the patterns of the reader.
    pub fn new() -> (r: Result<Patterns, ParseError>)
        ensures
            match r {
                Ok(patterns) => patterns.wf(),
                Err(e) => e == ParseError::Pattern,
            },
    {
        match regex::Regex::new(POINTS_PATTERN) {
            Ok(points) => match regex::Regex::new(POINT_PATTERN) {
                Ok(point) => Ok(Patterns { points, point }),
                Err(_) => Err(ParseError::Pattern),
            },
            Err(_) => Err(ParseError::Pattern),
        }
    }
}

/// The number that a group stands for, if the group is there and is a number.
pub open spec fn coordinate(group: Option<Seq<char>>) -> Option<i32> {
    match group {
        Some(text) => number(text),
        None => None,
    }
}

/// The point that the two groups of a match stand for.
pub open spec fn point_of(groups: (Option<Seq<char>>, Option<Seq<char>>)) -> Result<
    Point2D,
    ParseError,
> {
    match (coordinate(groups.0), coordinate(groups.1)) {
        (Some(x), Some(y)) => Ok(Point2D { x, y }),
        _ => Err(ParseError::Number),
    }
}

/// The point that a text stands for, given what the point pattern found in it.
pub open spec fn single_point(found: Option<(Option<Seq<char>>, Option<Seq<char>>)>) -> Result<
    Point2D,
    ParseError,
> {
    match found {
        Some(groups) => point_of(groups),
        None => Err(ParseError::Point),
    }
}

/// The points that the first `n` matches stand for, or the error of the first match
/// that stands for none.
pub open spec fn points_of(found: Seq<(Option<Seq<char>>, Option<Seq<char>>)>, n: int) -> Result<
    Seq<Point2D>,
    ParseError,
>
    decreases n,
{
    if n <= 0 {
        Ok(Seq::empty())
    } else {
        match points_of(found, n - 1) {
            Ok(points) => match point_of(found[n - 1]) {
                Ok(p) => Ok(points.push(p)),
                Err(e) => Err(e),
            },
            Err(e) => Err(e),
        }
    }
}

/// The points of a text, as the points pattern finds them.
pub open spec fn contour_of(text: Seq<char>) -> Result<Seq<Point2D>, ParseError> {
    let found = regex_all(POINTS_PATTERN@, text);
    points_of(found, found.len() as int)
}

/// The kind of pickup that a letter stands for.
pub open spec fn kind_of(letter: char) -> Option<BoosterType> {
    if letter == 'B' {
        Some(BoosterType::B)
    } else if letter == 'C' {
        Some(BoosterType::C)
    } else if letter == 'F' {
        Some(BoosterType::F)
    } else if letter == 'L' {
        Some(BoosterType::L)
    } else if letter == 'R' {
        Some(BoosterType::R)
    } else if letter == 'X' {
        Some(BoosterType::X)
    } else {
        None
    }
}

/// The pickup that a text stands for: the letter of its kind, then its position.
pub open spec fn booster_of(text: Seq<char>) -> Result<Booster, ParseError> {
    if text.len() == 0 {
        Err(ParseError::Booster)
    } else {
        match kind_of(text[0]) {
            Some(kind) => match single_point(regex_first(POINT_PATTERN@, text.skip(1))) {
                Ok(position) => Ok(Booster { type_: kind, position }),
                Err(e) => Err(e),
            },
            None => Err(ParseError::Booster),
        }
    }
}

/// The contours that the first `n` pieces stand for, empty pieces left out, or the
/// error of the first piece that stands for none.
pub open spec fn contours_of(parts: Seq<Seq<char>>, n: int) -> Result<
    Seq<Seq<Point2D>>,
    ParseError,
>
    decreases n,
{
    if n <= 0 {
        Ok(Seq::empty())
    } else {
        match contours_of(parts, n - 1) {
            Ok(done) => if parts[n - 1].len() == 0 {
                Ok(done)
            } else {
                match contour_of(parts[n - 1]) {
                    Ok(contour) => Ok(done.push(contour)),
                    Err(e) => Err(e),
                }
            },
            Err(e) => Err(e),
        }
    }
}

/// The pickups that the first `n` pieces stand for, empty pieces left out, or the
/// error of the first piece that stands for none.
pub open spec fn boosters_of(parts: Seq<Seq<char>>, n: int) -> Result<Seq<Booster>, ParseError>
    decreases n,
{
    if n <= 0 {
        Ok(Seq::empty())
    } else {
        match boosters_of(parts, n - 1) {
            Ok(done) => if parts[n - 1].len() == 0 {
                Ok(done)
            } else {
                match booster_of(parts[n - 1]) {
                    Ok(booster) => Ok(done.push(booster)),
                    Err(e) => Err(e),
                }
            },
            Err(e) => Err(e),
        }
    }
}

/// A grid of the given dimensions whose cells are all in one state.
pub open spec fn uniform(width: int, height: int, cell: GridCell) -> GridView {
    GridView { width, height, cells: Seq::new((width * height) as nat, |i: int| cell) }
}

/// The grid after the first `n` obstacles have been filled in.
pub open spec fn carve(grid: GridView, obstacles: Seq<Seq<Point2D>>, n: int) -> GridView
    decreases n,
{
    if n <= 0 {
        grid
    } else {
        fill(carve(grid, obstacles, n - 1), obstacles[n - 1], GridCell::Obstacle)
    }
}

/// The state that a map, obstacles, pickups and a start position make. The map's
/// bounding box must begin at the origin and fit a grid, every edge must be vertical
/// or horizontal, and the start must be a cell that an agent can stand on. The grid's
/// width is the extent of the map along y and its height the extent along x; the map
/// is filled in as free cells over void, and the obstacles over that.
pub open spec fn laid_out(
    map: Seq<Point2D>,
    obstacles: Seq<Seq<Point2D>>,
    boosters: Seq<Booster>,
    start: Point2D,
) -> Result<StateView, ParseError> {
    let n = map.len() as int;
    let width = most_y(map, n, 0);
    let height = most_x(map, n, 0);
    let grid = carve(
        fill(uniform(width, height, GridCell::Void), map, GridCell::Free),
        obstacles,
        obstacles.len() as int,
    );
    if least_x(map, n, i32::MAX as int) != 0 || least_y(map, n, i32::MAX as int) != 0 {
        Err(ParseError::NotAnchored)
    } else if width > u16::MAX || height > u16::MAX {
        Err(ParseError::TooLarge)
    } else if !orthogonal(map) || exists|k: int|
        0 <= k < obstacles.len() && !orthogonal(#[trigger] obstacles[k]) {
        Err(ParseError::NotOrthogonal)
    } else if !grid.passable(start.x as int, start.y as int) {
        Err(ParseError::Start)
    } else {
        Ok(StateView::initial(grid, boosters, start))
    }
}

/// The state that a text stands for: four sections between `#`, which hold the map,
/// the start position, the obstacles between `;` and the pickups between `;`.
pub open spec fn parsed(text: Seq<char>) -> Result<StateView, ParseError> {
    let parts = split(text, '#');
    if parts.len() != 4 {
        Err(ParseError::Sections)
    } else {
        let obstacles = split(parts[2], ';');
        let boosters = split(parts[3], ';');
        match contours_of(obstacles, obstacles.len() as int) {
            Ok(obstacles) => match boosters_of(boosters, boosters.len() as int) {
                Ok(boosters) => match contour_of(parts[0]) {
                    Ok(map) => match single_point(regex_first(POINT_PATTERN@, parts[1])) {
                        Ok(start) => laid_out(map, obstacles, boosters, start),
                        Err(e) => Err(e),
                    },
                    Err(e) => Err(e),
                },
                Err(e) => Err(e),
            },
            Err(e) => Err(e),
        }
    }
}

/// The contours of a list of polygons.
pub open spec fn contours(polygons: Seq<Poly>) -> Seq<Seq<Point2D>> {
    Seq::new(polygons.len(), |i: int| polygons[i]@)
}

/// What each of a list of matches captured.
pub open spec fn all_texts(found: Seq<Groups>) -> Seq<(Option<Seq<char>>, Option<Seq<char>>)> {
    Seq::new(found.len(), |i: int| found[i].texts())
}

/// The reader of tasks.
pub struct Problem;

impl Problem {
    /// The number that a group stands for.
    fn coordinate_from(group: &Option<String>) -> (r: Option<i32>)
        ensures
            r == coordinate(shown(*group)),
    {
        match group {
            Some(text) => parse_number(text.as_str()),
            None => None,
        }
    }

    /// The point that the two groups of a match stand for.
    pub fn point_from(groups: &Groups) -> (r: Result<Point2D, ParseError>)
        ensures
            r == point_of(groups.texts()),
    {
        match (Self::coordinate_from(&groups.first), Self::coordinate_from(&groups.second)) {
            (Some(x), Some(y)) => Ok(Point2D::new(x, y)),
            _ => Err(ParseError::Number),
        }
    }

    /// The point that a text stands for, given what the point pattern found in it.
    pub fn single_point_from(found: &Option<Groups>) -> (r: Result<Point2D, ParseError>)
        ensures
            r == match found {
                Some(groups) => point_of(groups.texts()),
                None => Err(ParseError::Point),
            },
    {
        match found {
            Some(groups) => Self::point_from(groups),
            None => Err(ParseError::Point),
        }
    }

    /// The points that a list of matches stands for, or the error of the first match
    /// that stands for none.
    pub fn points_from(found: &Vec<Groups>) -> (r: Result<Vec<Point2D>, ParseError>)
        ensures
            match r {
                Ok(points) => points_of(all_texts(found@), found@.len() as int) == Ok::<
                    Seq<Point2D>,
                    ParseError,
                >(points@),
                Err(e) => points_of(all_texts(found@), found@.len() as int) == Err::<
                    Seq<Point2D>,
                    ParseError,
                >(e),
            },
    {
        let mut points: Vec<Point2D> = Vec::new();
        let mut i: usize = 0;
        while i < found.len()
            invariant
                i <= found.len(),
                points_of(all_texts(found@), i as int) == Ok::<Seq<Point2D>, ParseError>(points@),
            decreases found.len() - i,
        {
            match Self::point_from(&found[i]) {
                Ok(p) => {
                    points.push(p);
                },
                Err(e) => {
                    proof {
                        lemma_points_fail_on(all_texts(found@), i + 1, found@.len() as int);
                    }
                    return Err(e);
                },
            }
            i += 1;
        }
        Ok(points)
    }

    /// Reads a text that is one point, such as `(3,4)`.
    pub fn parse_point(patterns: &Patterns, s: &str) -> (r: Result<Point2D, ParseError>)
        requires
            patterns.wf(),
        ensures
            r == single_point(regex_first(POINT_PATTERN@, s@)),
    {
        let found = first_match(&patterns.point, s);
        Self::single_point_from(&found)
    }

    /// Reads the points of a list, such as `(0,1),(1,0)`.
    pub fn parse_points(patterns: &Patterns, s: &str) -> (r: Result<Vec<Point2D>, ParseError>)
        requires
            patterns.wf(),
        ensures
            match r {
                Ok(points) => contour_of(s@) == Ok::<Seq<Point2D>, ParseError>(points@),
                Err(e) => contour_of(s@) == Err::<Seq<Point2D>, ParseError>(e),
            },
    {
        let found = all_matches(&patterns.points, s);
        assert(all_texts(found@) =~= regex_all(POINTS_PATTERN@, s@));
        Self::points_from(&found)
    }

    /// Reads a pickup: the letter of its kind, then its position, such as `B(1,0)`.
    pub fn parse_booster(patterns: &Patterns, s: &str) -> (r: Result<Booster, ParseError>)
        requires
            patterns.wf(),
        ensures
            r == booster_of(s@),
    {
        let n = s.unicode_len();
        if n == 0 {
            return Err(ParseError::Booster);
        }
        let letter = s.get_char(0);
        let type_ = if letter == 'B' {
            BoosterType::B
        } else if letter == 'C' {
            BoosterType::C
        } else if letter == 'F' {
            BoosterType::F
        } else if letter == 'L' {
            BoosterType::L
        } else if letter == 'R' {
            BoosterType::R
        } else if letter == 'X' {
            BoosterType::X
        } else {
            return Err(ParseError::Booster);
        };
        match Self::parse_point(patterns, s.substring_char(1, n)) {
            Ok(position) => Ok(Booster { type_, position }),
            Err(e) => Err(e),
        }
    }

    /// Builds the state of a task from its map, its obstacles, its pickups and its
    /// start position.
    pub fn assemble(
        map: Poly,
        obstacles: Vec<Poly>,
        boosters: Vec<Booster>,
        initial_position: Point2D,
    ) -> (r: Result<State, ParseError>)
        ensures
            match r {
                Ok(state) => state.wf() && laid_out(
                    map@,
                    contours(obstacles@),
                    boosters@,
                    initial_position,
                ) == Ok::<StateView, ParseError>(state@),
                Err(e) => laid_out(map@, contours(obstacles@), boosters@, initial_position) == Err::<
                    StateView,
                    ParseError,
                >(e),
            },
    {
        let ghost holes = contours(obstacles@);
        let (bottom_left, top_right) = map.bbox();
        if bottom_left.x != 0 || bottom_left.y != 0 {
            return Err(ParseError::NotAnchored);
        }
        if top_right.y > 0xffff || top_right.x > 0xffff {
            return Err(ParseError::TooLarge);
        }
        if !map.is_orthogonal() {
            return Err(ParseError::NotOrthogonal);
        }
        let mut k: usize = 0;
        while k < obstacles.len()
            invariant
                k <= obstacles.len(),
                holes == contours(obstacles@),
                least_x(map@, map@.len() as int, i32::MAX as int) == 0,
                least_y(map@, map@.len() as int, i32::MAX as int) == 0,
                most_x(map@, map@.len() as int, 0) <= u16::MAX,
                most_y(map@, map@.len() as int, 0) <= u16::MAX,
                orthogonal(map@),
                forall|j: int| 0 <= j < k ==> orthogonal(#[trigger] holes[j]),
            decreases obstacles.len() - k,
        {
            if !obstacles[k].is_orthogonal() {
                assert(!orthogonal(holes[k as int]));
                return Err(ParseError::NotOrthogonal);
            }
            k += 1;
        }
        proof {
            lemma_most_at_least(map@, map@.len() as int, 0);
        }
        let width = top_right.y as u16;
        let height = top_right.x as u16;
        let mut grid = Grid::new(width, height, GridCell::Void);
        assert(grid@.cells =~= uniform(width as int, height as int, GridCell::Void).cells);
        map.project(&mut grid, GridCell::Free);
        let mut k: usize = 0;
        while k < obstacles.len()
            invariant
                k <= obstacles.len(),
                holes == contours(obstacles@),
                grid.wf(),
                grid@ == carve(
                    fill(uniform(width as int, height as int, GridCell::Void), map@, GridCell::Free),
                    holes,
                    k as int,
                ),
            decreases obstacles.len() - k,
        {
            obstacles[k].project(&mut grid, GridCell::Obstacle);
            k += 1;
        }
        if !grid.contains(initial_position) || grid[initial_position].is_obstacle() {
            return Err(ParseError::Start);
        }
        Ok(State::new(grid, boosters, initial_position))
    }

    /// Reads a task: the map, the start position, the obstacles and the pickups, in
    /// four sections between `#`.
    pub fn parse(patterns: &Patterns, s: String) -> (r: Result<State, ParseError>)
        requires
            patterns.wf(),
        ensures
            match r {
                Ok(state) => state.wf() && parsed(s@) == Ok::<StateView, ParseError>(state@),
                Err(e) => parsed(s@) == Err::<StateView, ParseError>(e),
            },
    {
        let raw_parts = pieces(s.as_str(), '#');
        if raw_parts.len() != 4 {
            return Err(ParseError::Sections);
        }
        let raw_map = raw_parts[0];
        let raw_initial = raw_parts[1];
        let raw_obstacles = raw_parts[2];
        let raw_boosters = raw_parts[3];
        let obstacles = match Self::parse_obstacles(patterns, raw_obstacles) {
            Ok(obstacles) => obstacles,
            Err(e) => {
                return Err(e);
            },
        };
        let boosters = match Self::parse_boosters(patterns, raw_boosters) {
            Ok(boosters) => boosters,
            Err(e) => {
                return Err(e);
            },
        };
        let map = match Self::parse_points(patterns, raw_map) {
            Ok(points) => Poly::new(points),
            Err(e) => {
                return Err(e);
            },
        };
        let initial_position = match Self::parse_point(patterns, raw_initial) {
            Ok(p) => p,
            Err(e) => {
                return Err(e);
            },
        };
        Self::assemble(map, obstacles, boosters, initial_position)
    }

    /// Reads the obstacles of a section: contours between `;`.
    fn parse_obstacles(patterns: &Patterns, s: &str) -> (r: Result<Vec<Poly>, ParseError>)
        requires
            patterns.wf(),
        ensures
            match r {
                Ok(polygons) => contours_of(split(s@, ';'), split(s@, ';').len() as int) == Ok::<
                    Seq<Seq<Point2D>>,
                    ParseError,
                >(contours(polygons@)),
                Err(e) => contours_of(split(s@, ';'), split(s@, ';').len() as int) == Err::<
                    Seq<Seq<Point2D>>,
                    ParseError,
                >(e),
            },
    {
        let parts = pieces(s, ';');
        let ghost texts = split(s@, ';');
        let mut polygons: Vec<Poly> = Vec::new();
        let mut i: usize = 0;
        assert(contours(polygons@) =~= Seq::empty());
        while i < parts.len()
            invariant
                i <= parts.len(),
                patterns.wf(),
                texts == split(s@, ';'),
                parts@.len() == texts.len(),
                forall|k: int| 0 <= k < parts@.len() ==> (#[trigger] parts@[k])@ == texts[k],
                contours_of(texts, i as int) == Ok::<Seq<Seq<Point2D>>, ParseError>(
                    contours(polygons@),
                ),
            decreases parts.len() - i,
        {
            let part = parts[i];
            if !part.is_empty() {
                match Self::parse_points(patterns, part) {
                    Ok(points) => {
                        let ghost before = contours(polygons@);
                        polygons.push(Poly::new(points));
                        assert(contours(polygons@) =~= before.push(points@));
                    },
                    Err(e) => {
                        proof {
                            lemma_contours_fail_on(texts, i + 1, texts.len() as int);
                        }
                        return Err(e);
                    },
                }
            }
            i += 1;
        }
        Ok(polygons)
    }

    /// Reads the pickups of a section: pickups between `;`.
    fn parse_boosters(patterns: &Patterns, s: &str) -> (r: Result<Vec<Booster>, ParseError>)
        requires
            patterns.wf(),
        ensures
            match r {
                Ok(boosters) => boosters_of(split(s@, ';'), split(s@, ';').len() as int) == Ok::<
                    Seq<Booster>,
                    ParseError,
                >(boosters@),
                Err(e) => boosters_of(split(s@, ';'), split(s@, ';').len() as int) == Err::<
                    Seq<Booster>,
                    ParseError,
                >(e),
            },
    {
        let parts = pieces(s, ';');
        let ghost texts = split(s@, ';');
        let mut boosters: Vec<Booster> = Vec::new();
        let mut i: usize = 0;
        while i < parts.len()
            invariant
                i <= parts.len(),
                patterns.wf(),
                texts == split(s@, ';'),
                parts@.len() == texts.len(),
                forall|k: int| 0 <= k < parts@.len() ==> (#[trigger] parts@[k])@ == texts[k],
                boosters_of(texts, i as int) == Ok::<Seq<Booster>, ParseError>(boosters@),
            decreases parts.len() - i,
        {
            let part = parts[i];
            if !part.is_empty() {
                match Self::parse_booster(patterns, part) {
                    Ok(booster) => {
                        boosters.push(booster);
                    },
                    Err(e) => {
                        proof {
                            lemma_boosters_fail_on(texts, i + 1, texts.len() as int);
                        }
                        return Err(e);
                    },
                }
            }
            i += 1;
        }
        Ok(boosters)
    }
}

/// Once a match stands for no point, so does every longer list of matches, with the
/// same error.
pub proof fn lemma_points_fail_on(
    found: Seq<(Option<Seq<char>>, Option<Seq<char>>)>,
    k: int,
    n: int,
)
    requires
        k <= n,
        points_of(found, k).is_err(),
    ensures
        points_of(found, n) == points_of(found, k),
    decreases n - k,
{
    if k < n {
        lemma_points_fail_on(found, k, n - 1);
    }
}

/// Once a piece stands for no contour, so does every longer list of pieces, with the
/// same error.
pub proof fn lemma_contours_fail_on(parts: Seq<Seq<char>>, k: int, n: int)
    requires
        k <= n,
        contours_of(parts, k).is_err(),
    ensures
        contours_of(parts, n) == contours_of(parts, k),
    decreases n - k,
{
    if k < n {
        lemma_contours_fail_on(parts, k, n - 1);
    }
}

/// Once a piece stands for no pickup, so does every longer list of pieces, with the
/// same error.
pub proof fn lemma_boosters_fail_on(parts: Seq<Seq<char>>, k: int, n: int)
    requires
        k <= n,
        boosters_of(parts, k).is_err(),
    ensures
        boosters_of(parts, n) == boosters_of(parts, k),
    decreases n - k,
{
    if k < n {
        lemma_boosters_fail_on(parts, k, n - 1);
    }
}

} // verus!
