//! Agents: where they stand, which way they face and which cells their sensors reach.

use vstd::prelude::*;
use crate::geometry::magnitude;
use crate::geometry::Point2D;
use crate::grid::Grid;
use crate::grid::GridView;

verus! {

/// The two ways to turn: clockwise and counter-clockwise.
#[derive(PartialEq, Eq, Structural, Clone, Copy, Debug)]
pub enum RotationDirection {
    CW,
    CCW,
}

/// The four ways an agent can face.
#[derive(PartialEq, Eq, Structural, Clone, Copy, Debug)]
pub enum Orientation {
    Left,
    Up,
    Right,
    Down,
}

impl Orientation {
    /// The orientation after a quarter turn: clockwise runs Left, Up, Right, Down, Left.
    pub open spec fn turned(self, direction: RotationDirection) -> Orientation {
        match direction {
            RotationDirection::CW => match self {
                Orientation::Left => Orientation::Up,
                Orientation::Up => Orientation::Right,
                Orientation::Right => Orientation::Down,
                Orientation::Down => Orientation::Left,
            },
            RotationDirection::CCW => match self {
                Orientation::Left => Orientation::Down,
                Orientation::Up => Orientation::Left,
                Orientation::Right => Orientation::Up,
                Orientation::Down => Orientation::Right,
            },
        }
    }

    /// The two rows of the matrix that turns a relative offset into this orientation.
    pub open spec fn axes(self) -> (Point2D, Point2D) {
        match self {
            Orientation::Left => (Point2D { x: -1i32, y: 0 }, Point2D { x: 0, y: -1i32 }),
            Orientation::Up => (Point2D { x: 0, y: -1i32 }, Point2D { x: 1, y: 0 }),
            Orientation::Right => (Point2D { x: 1, y: 0 }, Point2D { x: 0, y: 1 }),
            Orientation::Down => (Point2D { x: 0, y: 1 }, Point2D { x: -1i32, y: 0 }),
        }
    }

    /// The coordinates of a relative offset once turned into this orientation: facing
    /// right leaves it as it is, and each quarter turn clockwise maps `(x, y)` to
    /// `(y, -x)`.
    pub open spec fn applied(self, p: Point2D) -> (int, int) {
        match self {
            Orientation::Left => (-p.x, -p.y),
            Orientation::Up => (-p.y, p.x as int),
            Orientation::Right => (p.x as int, p.y as int),
            Orientation::Down => (p.y as int, -p.x),
        }
    }

    /// The coordinates of the relative offset that this orientation turns into `p`.
    pub open spec fn unapplied(self, p: Point2D) -> (int, int) {
        match self {
            Orientation::Left => (-p.x, -p.y),
            Orientation::Up => (p.y as int, -p.x),
            Orientation::Right => (p.x as int, p.y as int),
            Orientation::Down => (-p.y, p.x as int),
        }
    }

    /// The orientation after a quarter turn.
    pub fn rotate(&self, direction: RotationDirection) -> (o: Orientation)
        ensures
            o == self.turned(direction),
    {
        match direction {
            RotationDirection::CW => match self {
                Orientation::Left => Orientation::Up,
                Orientation::Up => Orientation::Right,
                Orientation::Right => Orientation::Down,
                Orientation::Down => Orientation::Left,
            },
            RotationDirection::CCW => match self {
                Orientation::Left => Orientation::Down,
                Orientation::Up => Orientation::Left,
                Orientation::Right => Orientation::Up,
                Orientation::Down => Orientation::Right,
            },
        }
    }

    /// Turns a relative offset into this orientation.
    pub fn apply_to(&self, p: Point2D) -> (r: Point2D)
        requires
            p.x > i32::MIN,
            p.y > i32::MIN,
        ensures
            (r.x as int, r.y as int) == self.applied(p),
    {
        let (ax, ay) = self.multiplier();
        proof {
            lemma_axes_products(*self, p);
        }
        Point2D::new(p * ax, p * ay)
    }

    /// Turns a point given in this orientation back into a relative offset.
    pub fn unapply_to(&self, p: Point2D) -> (r: Point2D)
        requires
            p.x > i32::MIN,
            p.y > i32::MIN,
        ensures
            (r.x as int, r.y as int) == self.unapplied(p),
    {
        let (ax, ay) = self.multiplier();
        proof {
            lemma_axes_products(*self, p);
        }
        Point2D::new(p * Point2D::new(ax.x, ay.x), p * Point2D::new(ax.y, ay.y))
    }

    /// The two rows of the matrix that turns a relative offset into this orientation.
    pub fn multiplier(&self) -> (m: (Point2D, Point2D))
        ensures
            m == self.axes(),
    {
        match self {
            Orientation::Left => (Point2D::new(-1, 0), Point2D::new(0, -1)),
            Orientation::Up => (Point2D::new(0, -1), Point2D::new(1, 0)),
            Orientation::Right => (Point2D::new(1, 0), Point2D::new(0, 1)),
            Orientation::Down => (Point2D::new(0, 1), Point2D::new(-1, 0)),
        }
    }
}

/// Applying an orientation is the product with the matrix of its axes, and turning a
/// point back is the product with the transposed matrix.
pub proof fn lemma_axes_products(o: Orientation, p: Point2D)
    ensures
        o.applied(p) == (p.dot(o.axes().0), p.dot(o.axes().1)),
        o.unapplied(p) == (
            p.dot(Point2D { x: o.axes().0.x, y: o.axes().1.x }),
            p.dot(Point2D { x: o.axes().0.y, y: o.axes().1.y }),
        ),
{
    let (ax, ay) = o.axes();
    lemma_unit_product(p, ax);
    lemma_unit_product(p, ay);
    lemma_unit_product(p, Point2D { x: ax.x, y: ay.x });
    lemma_unit_product(p, Point2D { x: ax.y, y: ay.y });
}

/// The dot product with a vector whose coordinates are -1, 0 or 1, written out.
pub proof fn lemma_unit_product(p: Point2D, u: Point2D)
    requires
        -1 <= u.x <= 1,
        -1 <= u.y <= 1,
    ensures
        p.dot(u) == (if u.x == 1 {
            p.x as int
        } else if u.x == 0 {
            0
        } else {
            -p.x
        }) + (if u.y == 1 {
            p.y as int
        } else if u.y == 0 {
            0
        } else {
            -p.y
        }),
{
    let (px, py, ux, uy) = (p.x as int, p.y as int, u.x as int, u.y as int);
    assert(px * ux == if ux == 1 {
        px
    } else if ux == 0 {
        0
    } else {
        -px
    }) by (nonlinear_arith)
        requires
            -1 <= ux <= 1,
    ;
    assert(py * uy == if uy == 1 {
        py
    } else if uy == 0 {
        0
    } else {
        -py
    }) by (nonlinear_arith)
        requires
            -1 <= uy <= 1,
    ;
}

/// A quarter turn one way followed by a quarter turn the other way changes nothing.
pub proof fn lemma_turn_back(o: Orientation, direction: RotationDirection)
    ensures
        o.turned(RotationDirection::CW).turned(RotationDirection::CCW) == o,
        o.turned(RotationDirection::CCW).turned(RotationDirection::CW) == o,
        o.turned(direction).turned(direction).turned(direction).turned(direction) == o,
{
}

/// Turning a point back into a relative offset and applying the orientation again
/// gives the point, and the other way round.
pub proof fn lemma_unapply_inverts_apply(o: Orientation, p: Point2D)
    requires
        p.x > i32::MIN,
        p.y > i32::MIN,
    ensures
        ({
            let back = o.unapplied(p);
            o.applied(Point2D { x: back.0 as i32, y: back.1 as i32 })
        }) == (p.x as int, p.y as int),
        ({
            let there = o.applied(p);
            o.unapplied(Point2D { x: there.0 as i32, y: there.1 as i32 })
        }) == (p.x as int, p.y as int),
{
}

/// The highest x coordinate among a non-empty sequence of offsets.
pub open spec fn highest_x(offsets: Seq<Point2D>) -> int
    decreases offsets.len(),
{
    if offsets.len() <= 1 {
        offsets[0].x as int
    } else {
        let rest = highest_x(offsets.drop_last());
        if offsets.last().x > rest {
            offsets.last().x as int
        } else {
            rest
        }
    }
}

/// One agent.
pub struct Robot {
    pub id: u8,
    pub position: Point2D,
    pub tentacles: Vec<Point2D>,
    pub orientation: Orientation,
    pub fuel_left: u16,
}

/// The mathematical content of an agent.
pub struct RobotView {
    pub id: u8,
    pub position: Point2D,
    pub tentacles: Seq<Point2D>,
    pub orientation: Orientation,
    pub fuel_left: u16,
}

impl RobotView {
    /// The sensor layout that every new agent starts with.
    pub open spec fn default_tentacles() -> Seq<Point2D> {
        seq![Point2D { x: 1, y: 1 }, Point2D { x: 1, y: -1i32 }, Point2D { x: 1, y: 0 }]
    }

    /// A new agent at `position`: default sensors, facing right, no fuel.
    pub open spec fn fresh(id: u8, position: Point2D) -> RobotView {
        RobotView {
            id,
            position,
            tentacles: Self::default_tentacles(),
            orientation: Orientation::Right,
            fuel_left: 0,
        }
    }

    /// The coordinates of the cell that sensor `i` points at.
    pub open spec fn reach(self, i: int) -> (int, int) {
        let turned = self.orientation.applied(self.tentacles[i]);
        (self.position.x + turned.0, self.position.y + turned.1)
    }

    /// Whether the cell that sensor `i` points at lies inside the grid and is not blocked.
    pub open spec fn sees(self, grid: GridView, i: int) -> bool {
        grid.passable(self.reach(i).0, self.reach(i).1)
    }

    /// The cell that sensor `i` points at, as a point.
    pub open spec fn target(self, i: int) -> Point2D {
        Point2D { x: self.reach(i).0 as i32, y: self.reach(i).1 as i32 }
    }

    /// The targets of those among the first `n` sensors that see their cell, each
    /// sensor judged by itself.
    pub open spec fn independent(self, grid: GridView, n: int) -> Seq<Point2D>
        decreases n,
    {
        if n <= 0 {
            Seq::empty()
        } else if self.sees(grid, n - 1) {
            self.independent(grid, n - 1).push(self.target(n - 1))
        } else {
            self.independent(grid, n - 1)
        }
    }

    /// The targets of the sensors from index `k` on, up to the first one that does not
    /// see its cell.
    pub open spec fn chain(self, grid: GridView, k: int) -> Seq<Point2D>
        decreases self.tentacles.len() - k,
    {
        if 0 <= k < self.tentacles.len() && self.sees(grid, k) {
            seq![self.target(k)] + self.chain(grid, k + 1)
        } else {
            Seq::empty()
        }
    }

    /// How many of the sensors are judged independently: the first two.
    pub open spec fn pair_len(self) -> int {
        if self.tentacles.len() < 2 {
            self.tentacles.len() as int
        } else {
            2
        }
    }

    /// The cells the agent covers: its own, then what the first two sensors see, then
    /// the line of sight along the remaining ones.
    pub open spec fn visible(self, grid: GridView) -> Seq<Point2D> {
        seq![self.position] + self.independent(grid, self.pair_len()) + self.chain(grid, 2)
    }

    /// This agent facing another way.
    pub open spec fn with_orientation(self, orientation: Orientation) -> RobotView {
        RobotView { orientation, ..self }
    }

    /// This agent at another position.
    pub open spec fn with_position(self, position: Point2D) -> RobotView {
        RobotView { position, ..self }
    }

    /// This agent with other sensors.
    pub open spec fn with_tentacles(self, tentacles: Seq<Point2D>) -> RobotView {
        RobotView { tentacles, ..self }
    }

    /// This agent with another amount of fuel.
    pub open spec fn with_fuel(self, fuel_left: u16) -> RobotView {
        RobotView { fuel_left, ..self }
    }

    /// The distance, counted in steps along the axes, from the place that sensor `i`
    /// points at, relative to the agent, to the relative place `p`.
    pub open spec fn gap(self, i: int, p: Point2D) -> int {
        let turned = self.orientation.applied(self.tentacles[i]);
        magnitude(turned.0 - p.x) + magnitude(turned.1 - p.y)
    }

    /// Whether the relative place `p` is one step away from the place that some sensor
    /// points at.
    pub open spec fn adjoins(self, p: Point2D) -> bool {
        exists|i: int| 0 <= i < self.tentacles.len() && #[trigger] self.gap(i, p) == 1
    }

    /// The relative offset under which a sensor pointing at `p` is stored.
    pub open spec fn offset_for(self, p: Point2D) -> Point2D {
        Point2D {
            x: self.orientation.unapplied(p).0 as i32,
            y: self.orientation.unapplied(p).1 as i32,
        }
    }

    /// Where the next sensor goes by default: one step beyond the farthest sensor
    /// along the facing direction.
    pub open spec fn next_attachment(self) -> (int, int) {
        self.orientation.applied(Point2D { x: (highest_x(self.tentacles) + 1) as i32, y: 0 })
    }
}

impl View for Robot {
    type V = RobotView;

    open spec fn view(&self) -> RobotView {
        RobotView {
            id: self.id,
            position: self.position,
            tentacles: self.tentacles@,
            orientation: self.orientation,
            fuel_left: self.fuel_left,
        }
    }
}

impl Robot {
    /// A new agent at `position`: default sensors, facing right, no fuel.
    pub fn new(id: u8, position: Point2D) -> (r: Robot)
        ensures
            r@ == RobotView::fresh(id, position),
    {
        let mut tentacles: Vec<Point2D> = Vec::new();
        tentacles.push(Point2D::new(1, 1));
        tentacles.push(Point2D::new(1, -1));
        tentacles.push(Point2D::new(1, 0));
        assert(tentacles@ =~= RobotView::default_tentacles());
        Robot { id, position, tentacles, orientation: Orientation::Right, fuel_left: 0 }
    }

    /// Turns the agent by a quarter.
    pub fn rotate(&mut self, direction: RotationDirection)
        ensures
            final(self)@ == old(self)@.with_orientation(old(self).orientation.turned(direction)),
    {
        self.orientation = self.orientation.rotate(direction);
    }

    /// The offset of sensor `i` turned into the present orientation, in 64 bits so that
    /// no coordinate can overflow.
    fn turned_of(&self, i: usize) -> (r: (i64, i64))
        requires
            i < self.tentacles.len(),
        ensures
            (r.0 as int, r.1 as int) == self.orientation.applied(self.tentacles@[i as int]),
    {
        let t = self.tentacles[i];
        let (tx, ty): (i64, i64) = (t.x as i64, t.y as i64);
        match self.orientation {
            Orientation::Left => (-tx, -ty),
            Orientation::Up => (-ty, tx),
            Orientation::Right => (tx, ty),
            Orientation::Down => (ty, -tx),
        }
    }

    /// The coordinates of the cell that sensor `i` points at.
    fn reach_of(&self, i: usize) -> (r: (i64, i64))
        requires
            i < self.tentacles.len(),
        ensures
            (r.0 as int, r.1 as int) == self@.reach(i as int),
    {
        let (dx, dy) = self.turned_of(i);
        (self.position.x as i64 + dx, self.position.y as i64 + dy)
    }

    /// Whether the relative place `p` is one step away from the place that some sensor
    /// points at.
    pub fn adjoins(&self, p: Point2D) -> (b: bool)
        ensures
            b == self@.adjoins(p),
    {
        let mut i: usize = 0;
        while i < self.tentacles.len()
            invariant
                i <= self.tentacles.len(),
                forall|j: int| 0 <= j < i ==> #[trigger] self@.gap(j, p) != 1,
            decreases self.tentacles.len() - i,
        {
            let (tx, ty) = self.turned_of(i);
            let dx: i64 = if tx < p.x as i64 {
                p.x as i64 - tx
            } else {
                tx - p.x as i64
            };
            let dy: i64 = if ty < p.y as i64 {
                p.y as i64 - ty
            } else {
                ty - p.y as i64
            };
            if dx + dy == 1 {
                assert(self@.gap(i as int, p) == 1);
                return true;
            }
            i += 1;
        }
        false
    }

    /// The cell that sensor `i` points at, if it lies inside the grid and is not blocked.
    fn seen_by(&self, grid: &Grid, i: usize) -> (r: Option<Point2D>)
        requires
            grid.wf(),
            i < self.tentacles.len(),
        ensures
            r.is_some() == self@.sees(grid@, i as int),
            r.is_some() ==> r.unwrap() == self@.target(i as int),
    {
        let (x, y) = self.reach_of(i);
        if 0 <= x && x < grid.width as i64 && 0 <= y && y < grid.height as i64 {
            let p = Point2D::new(x as i32, y as i32);
            if !grid[p].is_obstacle() {
                return Some(p);
            }
        }
        None
    }

    /// The cells the agent covers from where it stands.
    pub fn get_visible_parts(&self, grid: &Grid) -> (parts: Vec<Point2D>)
        requires
            grid.wf(),
        ensures
            parts@ == self@.visible(grid@),
    {
        let mut result: Vec<Point2D> = Vec::new();
        result.push(self.position);
        let n = self.tentacles.len();
        let mut i: usize = 0;
        while i < 2 && i < n
            invariant
                grid.wf(),
                n == self.tentacles.len(),
                i <= 2,
                i <= n,
                result@ == seq![self.position] + self@.independent(grid@, i as int),
            decreases 2 - i,
        {
            match self.seen_by(grid, i) {
                Some(p) => {
                    result.push(p);
                },
                None => {},
            }
            i += 1;
            assert(result@ =~= seq![self.position] + self@.independent(grid@, i as int));
        }
        let ghost head = result@;
        assert(i == self@.pair_len());
        let mut k: usize = 2;
        let mut open: bool = true;
        while open && k < n
            invariant
                grid.wf(),
                n == self.tentacles.len(),
                2 <= k,
                open ==> head + self@.chain(grid@, 2) == result@ + self@.chain(grid@, k as int),
                !open ==> head + self@.chain(grid@, 2) == result@,
            decreases (if open { 1int } else { 0int }), n - k,
        {
            match self.seen_by(grid, k) {
                Some(p) => {
                    proof {
                        assert(result@.push(p) + self@.chain(grid@, k + 1) =~= result@
                            + self@.chain(grid@, k as int));
                    }
                    result.push(p);
                    k += 1;
                },
                None => {
                    proof {
                        assert(result@ + self@.chain(grid@, k as int) =~= result@);
                    }
                    open = false;
                },
            }
        }
        proof {
            if open {
                assert(result@ + self@.chain(grid@, k as int) =~= result@);
            }
        }
        result
    }

    /// Adds a sensor that points at `p` in the present orientation.
    pub fn attach_tentacle(&mut self, p: Point2D)
        requires
            p.x > i32::MIN,
            p.y > i32::MIN,
        ensures
            final(self)@ == old(self)@.with_tentacles(
                old(self)@.tentacles.push(old(self)@.offset_for(p)),
            ),
    {
        let offset = self.orientation.unapply_to(p);
        self.tentacles.push(offset);
    }

    /// Removes the sensor that was added last.
    pub fn detach_last_tentacle(&mut self)
        requires
            old(self).tentacles.len() > 0,
        ensures
            final(self)@ == old(self)@.with_tentacles(old(self)@.tentacles.drop_last()),
    {
        self.tentacles.pop();
    }

    /// Where the next sensor goes by default: one step beyond the farthest sensor along
    /// the facing direction.
    pub fn next_attachment_point(&self) -> (p: Point2D)
        requires
            self.tentacles.len() > 0,
            highest_x(self@.tentacles) < i32::MAX,
        ensures
            (p.x as int, p.y as int) == self@.next_attachment(),
    {
        let mut x: i32 = self.tentacles[0].x;
        let mut i: usize = 1;
        assert(self@.tentacles.subrange(0, 1).drop_last().len() == 0);
        while i < self.tentacles.len()
            invariant
                1 <= i <= self.tentacles.len(),
                x == highest_x(self@.tentacles.subrange(0, i as int)),
            decreases self.tentacles.len() - i,
        {
            proof {
                assert(self@.tentacles.subrange(0, i + 1).drop_last() =~= self@.tentacles.subrange(
                    0,
                    i as int,
                ));
            }
            if self.tentacles[i].x > x {
                x = self.tentacles[i].x;
            }
            i += 1;
        }
        assert(self@.tentacles.subrange(0, i as int) =~= self@.tentacles);
        self.orientation.apply_to(Point2D::new(x + 1, 0))
    }
}

} // verus!
