use vstd::prelude::*;

verus! {

/// Largest coordinate magnitude a point may have, so that the difference of two
/// points fits in an `i64` and a cross product of two such differences in an `i128`.
pub const COORD_LIMIT: i64 = 4611686018427387903;

/// A location in the drawing plane, in millionths of the drawing unit.
#[derive(Clone, Copy, Debug, PartialEq, Eq, Structural)]
pub struct Point {
    pub x: i64,
    pub y: i64,
}

/// A displacement in the drawing plane, in millionths of the drawing unit.
#[derive(Clone, Copy, Debug, PartialEq, Eq, Structural)]
pub struct Vector {
    pub x: i64,
    pub y: i64,
}

impl Point {
    /// Both coordinates lie within `COORD_LIMIT` of the origin.
    pub open spec fn in_range(self) -> bool {
        -COORD_LIMIT <= self.x <= COORD_LIMIT && -COORD_LIMIT <= self.y <= COORD_LIMIT
    }

    pub fn new(x: i64, y: i64) -> (r: Point)
        ensures
            r.x == x,
            r.y == y,
    {
        Point { x, y }
    }
}


/// Squared Euclidean length.
pub open spec fn mag_sq(v: Vector) -> int {
    v.x * v.x + v.y * v.y
}

/// Signed area spanned by `u` then `v`: positive when `v` lies counter-clockwise
/// of `u` within a half turn.
pub open spec fn cross(u: Vector, v: Vector) -> int {
    u.x * v.y - u.y * v.x
}

/// `u` and `v` point the same way: one is a positive multiple of the other.
pub open spec fn same_direction(u: Vector, v: Vector) -> bool {
    cross(u, v) == 0 && u.x * v.x + u.y * v.y > 0
}

/// The quarter turn that the stroke builder calls clockwise, `(x, y) -> (-y, x)`;
/// its inverse is `spec_rotate_ccw`.
pub open spec fn spec_rotate_cw(v: Vector) -> Vector {
    Vector { x: (-v.y) as i64, y: v.x }
}

/// The counter-clockwise quarter turn, `(x, y) -> (y, -x)`.
pub open spec fn spec_rotate_ccw(v: Vector) -> Vector {
    Vector { x: v.y, y: (-v.x) as i64 }
}

impl Vector {
    /// No coordinate is `i64::MIN`, so that negating or rotating stays in range.
    pub open spec fn negatable(self) -> bool {
        self.x > i64::MIN && self.y > i64::MIN
    }

    /// Translates the vector that starts at `point_a` and ends at `point_b` to
    /// start at the origin.
    pub fn from_points(point_a: &Point, point_b: &Point) -> (r: Vector)
        requires
            point_a.in_range(),
            point_b.in_range(),
        ensures
            r.x == point_b.x - point_a.x,
            r.y == point_b.y - point_a.y,
            r.negatable(),
    {
        Vector { x: point_b.x - point_a.x, y: point_b.y - point_a.y }
    }

    pub fn reverse(&mut self)
        requires
            old(self).negatable(),
        ensures
            final(self).x == -old(self).x,
            final(self).y == -old(self).y,
    {
        self.x = -self.x;
        self.y = -self.y;
    }

    pub fn get_reversed(&self) -> (r: Vector)
        requires
            self.negatable(),
        ensures
            r.x == -self.x,
            r.y == -self.y,
            r.negatable(),
    {
        Vector { x: -self.x, y: -self.y }
    }

    pub fn get_rotate_cw(&self) -> (r: Vector)
        requires
            self.negatable(),
        ensures
            r == spec_rotate_cw(*self),
            r.negatable(),
    {
        Vector { x: -self.y, y: self.x }
    }

    pub fn get_rotate_ccw(&self) -> (r: Vector)
        requires
            self.negatable(),
        ensures
            r == spec_rotate_ccw(*self),
            r.negatable(),
    {
        Vector { x: self.y, y: -self.x }
    }

    /// The point `point` moved by this vector.
    pub fn apply(&self, point: &Point) -> (r: Point)
        requires
            i64::MIN <= point.x + self.x <= i64::MAX,
            i64::MIN <= point.y + self.y <= i64::MAX,
        ensures
            r.x == point.x + self.x,
            r.y == point.y + self.y,
    {
        Point { x: point.x + self.x, y: point.y + self.y }
    }

    /// Whether `c` lies strictly counter-clockwise of `self` within a half turn,
    /// that is, whether the angle of `self` minus the angle of `c`, taken modulo a
    /// full turn, exceeds a half turn.
    pub fn turns_past_half(&self, c: &Vector) -> (r: bool)
        requires
            self.negatable(),
            c.negatable(),
        ensures
            r == (cross(*self, *c) > 0),
    {
        assert(-0x3fff_ffff_ffff_ffff_0000_0000_0000_0001 <= (self.x as int) * (c.y as int)
            <= 0x3fff_ffff_ffff_ffff_0000_0000_0000_0001) by (nonlinear_arith)
            requires
                -0x7fff_ffff_ffff_ffff <= self.x <= 0x7fff_ffff_ffff_ffff,
                -0x7fff_ffff_ffff_ffff <= c.y <= 0x7fff_ffff_ffff_ffff,
        ;
        assert(-0x3fff_ffff_ffff_ffff_0000_0000_0000_0001 <= (self.y as int) * (c.x as int)
            <= 0x3fff_ffff_ffff_ffff_0000_0000_0000_0001) by (nonlinear_arith)
            requires
                -0x7fff_ffff_ffff_ffff <= self.y <= 0x7fff_ffff_ffff_ffff,
                -0x7fff_ffff_ffff_ffff <= c.x <= 0x7fff_ffff_ffff_ffff,
        ;
        let p: i128 = (self.x as i128) * (c.y as i128);
        let q: i128 = (self.y as i128) * (c.x as i128);
        p - q > 0
    }
}

/// Turning a quarter turn one way and then back returns the vector unchanged,
/// in either order, and a quarter turn keeps the length.
pub proof fn lemma_rotations_inverse(v: Vector)
    requires
        v.negatable(),
    ensures
        spec_rotate_ccw(spec_rotate_cw(v)) == v,
        spec_rotate_cw(spec_rotate_ccw(v)) == v,
        mag_sq(spec_rotate_cw(v)) == mag_sq(v),
        mag_sq(spec_rotate_ccw(v)) == mag_sq(v),
{
    assert((-v.y) * (-v.y) == v.y * v.y) by (nonlinear_arith);
    assert((-v.x) * (-v.x) == v.x * v.x) by (nonlinear_arith);
}

/// Scaling both vectors by positive factors changes neither the direction of
/// each nor which side of a half turn one lies from the other: the angle of a
/// vector depends on its direction alone.
pub proof fn lemma_angle_scale_invariant(u: Vector, v: Vector, k: int, m: int)
    requires
        k > 0,
        m > 0,
        i64::MIN <= k * u.x <= i64::MAX,
        i64::MIN <= k * u.y <= i64::MAX,
        i64::MIN <= m * v.x <= i64::MAX,
        i64::MIN <= m * v.y <= i64::MAX,
        u.x != 0 || u.y != 0,
    ensures
        ({
            let ku = Vector { x: (k * u.x) as i64, y: (k * u.y) as i64 };
            let mv = Vector { x: (m * v.x) as i64, y: (m * v.y) as i64 };
            same_direction(u, ku) && (cross(ku, mv) > 0 <==> cross(u, v) > 0)
        }),
{
    let ku = Vector { x: (k * u.x) as i64, y: (k * u.y) as i64 };
    let mv = Vector { x: (m * v.x) as i64, y: (m * v.y) as i64 };
    assert(ku.x * mv.y == k * m * (u.x * v.y)) by (nonlinear_arith)
        requires ku.x == k * u.x, mv.y == m * v.y;
    assert(ku.y * mv.x == k * m * (u.y * v.x)) by (nonlinear_arith)
        requires ku.y == k * u.y, mv.x == m * v.x;
    assert(k * m * (u.x * v.y) - k * m * (u.y * v.x) == k * m * cross(u, v)) by (nonlinear_arith);
    assert(cross(u, ku) == 0) by (nonlinear_arith)
        requires ku.x == k * u.x, ku.y == k * u.y;
    assert(u.x * ku.x + u.y * ku.y == k * (u.x * u.x + u.y * u.y)) by (nonlinear_arith)
        requires ku.x == k * u.x, ku.y == k * u.y;
    assert(u.x * u.x + u.y * u.y > 0) by (nonlinear_arith)
        requires u.x != 0 || u.y != 0;
    assert(k * (u.x * u.x + u.y * u.y) > 0) by (nonlinear_arith)
        requires k > 0, u.x * u.x + u.y * u.y > 0;
    assert(k * m * cross(u, v) > 0 <==> cross(u, v) > 0) by (nonlinear_arith)
        requires k > 0, m > 0;
}

} // verus!
