//! Integer points of the plane and their vector arithmetic.

use vstd::prelude::*;
use vstd::std_specs::ops::AddSpecImpl;
use vstd::std_specs::ops::MulSpecImpl;
use vstd::std_specs::ops::NegSpecImpl;
use vstd::std_specs::ops::SubSpecImpl;

verus! {

/// A point, or a vector, with 32-bit integer coordinates.
#[derive(PartialEq, Eq, Structural, Clone, Copy, Hash, Debug)]
pub struct Point2D {
    pub x: i32,
    pub y: i32,
}

/// The absolute value of an integer.
pub open spec fn magnitude(v: int) -> int {
    if v < 0 {
        -v
    } else {
        v
    }
}

/// Whether an integer is a value of `i32`.
pub open spec fn fits_i32(v: int) -> bool {
    i32::MIN <= v <= i32::MAX
}

impl Point2D {
    /// The point with the given coordinates.
    pub fn new(x: i32, y: i32) -> (p: Point2D)
        ensures
            p == (Point2D { x, y }),
    {
        Point2D { x, y }
    }

    /// The sum of the coordinate-wise distances to `p`.
    pub open spec fn manhattan(self, p: Point2D) -> int {
        magnitude(self.x - p.x) + magnitude(self.y - p.y)
    }

    /// The point reached from here by the vector `d`.
    pub open spec fn plus(self, d: Point2D) -> Point2D {
        Point2D { x: (self.x + d.x) as i32, y: (self.y + d.y) as i32 }
    }

    /// The point from which the vector `d` leads here.
    pub open spec fn minus(self, d: Point2D) -> Point2D {
        Point2D { x: (self.x - d.x) as i32, y: (self.y - d.y) as i32 }
    }

    /// The dot product with `p`.
    pub open spec fn dot(self, p: Point2D) -> int {
        self.x * p.x + self.y * p.y
    }

    /// The distance to `p`, counted in steps along the axes.
    pub fn manhattan_dist(&self, p: Point2D) -> (d: i32)
        requires
            fits_i32(self.manhattan(p)),
        ensures
            d == self.manhattan(p),
    {
        let dx: i32 = if self.x < p.x {
            p.x - self.x
        } else {
            self.x - p.x
        };
        let dy: i32 = if self.y < p.y {
            p.y - self.y
        } else {
            self.y - p.y
        };
        dx + dy
    }
}

impl core::ops::Neg for Point2D {
    type Output = Point2D;

    fn neg(self) -> (r: Point2D) {
        Point2D::new(-self.x, -self.y)
    }
}

impl NegSpecImpl for Point2D {
    open spec fn obeys_neg_spec() -> bool {
        true
    }

    open spec fn neg_req(self) -> bool {
        self.x > i32::MIN && self.y > i32::MIN
    }

    open spec fn neg_spec(self) -> Point2D {
        Point2D { x: (-self.x) as i32, y: (-self.y) as i32 }
    }
}

impl core::ops::Add for Point2D {
    type Output = Point2D;

    fn add(self, rhs: Point2D) -> (r: Point2D) {
        Point2D::new(self.x + rhs.x, self.y + rhs.y)
    }
}

impl AddSpecImpl for Point2D {
    open spec fn obeys_add_spec() -> bool {
        true
    }

    open spec fn add_req(self, rhs: Point2D) -> bool {
        fits_i32(self.x + rhs.x) && fits_i32(self.y + rhs.y)
    }

    open spec fn add_spec(self, rhs: Point2D) -> Point2D {
        self.plus(rhs)
    }
}

impl core::ops::Sub for Point2D {
    type Output = Point2D;

    fn sub(self, rhs: Point2D) -> (r: Point2D) {
        Point2D::new(self.x - rhs.x, self.y - rhs.y)
    }
}

impl SubSpecImpl for Point2D {
    open spec fn obeys_sub_spec() -> bool {
        true
    }

    open spec fn sub_req(self, rhs: Point2D) -> bool {
        fits_i32(self.x - rhs.x) && fits_i32(self.y - rhs.y)
    }

    open spec fn sub_spec(self, rhs: Point2D) -> Point2D {
        self.minus(rhs)
    }
}

impl core::ops::Mul for Point2D {
    type Output = i32;

    fn mul(self, rhs: Point2D) -> (r: i32) {
        proof {
            lemma_product_bounds(self.x as int, rhs.x as int);
            lemma_product_bounds(self.y as int, rhs.y as int);
        }
        let a: i64 = (self.x as i64) * (rhs.x as i64);
        let b: i64 = (self.y as i64) * (rhs.y as i64);
        (a + b) as i32
    }
}

impl MulSpecImpl for Point2D {
    open spec fn obeys_mul_spec() -> bool {
        true
    }

    open spec fn mul_req(self, rhs: Point2D) -> bool {
        fits_i32(self.dot(rhs))
    }

    open spec fn mul_spec(self, rhs: Point2D) -> i32 {
        self.dot(rhs) as i32
    }
}

/// The product of two 32-bit integers lies within 62 bits.
pub proof fn lemma_product_bounds(a: int, b: int)
    requires
        fits_i32(a),
        fits_i32(b),
    ensures
        -0x4000_0000_0000_0000 <= a * b <= 0x4000_0000_0000_0000,
{
    assert(-0x4000_0000_0000_0000 <= a * b <= 0x4000_0000_0000_0000) by (nonlinear_arith)
        requires
            -0x8000_0000 <= a <= 0x7fff_ffff,
            -0x8000_0000 <= b <= 0x7fff_ffff,
    ;
}

} // verus!
