use vstd::prelude::*;

verus! {

/// Integer vector on the screen plane.
#[derive(Debug, Clone, Copy, PartialEq, Eq, Structural)]
pub struct Vec2i {
    pub x: i32,
    pub y: i32,
}

/// Unsigned vector on the screen plane.
#[derive(Debug, Clone, Copy, PartialEq, Eq, Structural)]
pub struct Vec2u {
    pub x: usize,
    pub y: usize,
}

/// Integer vector in three dimensions.
#[derive(Debug, Clone, Copy, PartialEq, Eq, Structural)]
pub struct Vec3i {
    pub x: i32,
    pub y: i32,
    pub z: i32,
}

/// The 2x2 determinant `| ax ay ; bx by |`.
pub open spec fn det2(ax: int, ay: int, bx: int, by: int) -> int {
    ax * by - ay * bx
}

impl Vec2i {
    pub fn cons(x: i32, y: i32) -> (r: Vec2i)
        ensures
            r.x == x,
            r.y == y,
    {
        Vec2i { x, y }
    }

    pub fn from_vec2u(vec: Vec2u) -> (r: Vec2i)
        requires
            vec.x <= i32::MAX,
            vec.y <= i32::MAX,
        ensures
            r.x == vec.x,
            r.y == vec.y,
    {
        Vec2i::cons(vec.x as i32, vec.y as i32)
    }

    /// The determinant of the matrix whose rows are `self` and `other`.
    pub fn determinant(&self, other: &Self) -> (r: i64)
        ensures
            r == det2(self.x as int, self.y as int, other.x as int, other.y as int),
    {
        assert(-0x3fff_ffff_8000_0000 <= self.x as int * other.y as int <= 0x4000_0000_0000_0000)
            by (nonlinear_arith);
        assert(-0x3fff_ffff_8000_0000 <= self.y as int * other.x as int <= 0x4000_0000_0000_0000)
            by (nonlinear_arith);
        self.x as i64 * other.y as i64 - self.y as i64 * other.x as i64
    }

    /// Componentwise sum.
    pub fn add(self, other: Vec2i) -> (r: Vec2i)
        requires
            i32::MIN <= self.x + other.x <= i32::MAX,
            i32::MIN <= self.y + other.y <= i32::MAX,
        ensures
            r.x == self.x + other.x,
            r.y == self.y + other.y,
    {
        Vec2i::cons(self.x + other.x, self.y + other.y)
    }

    /// Componentwise difference.
    pub fn sub(self, other: Vec2i) -> (r: Vec2i)
        requires
            i32::MIN <= self.x - other.x <= i32::MAX,
            i32::MIN <= self.y - other.y <= i32::MAX,
        ensures
            r.x == self.x - other.x,
            r.y == self.y - other.y,
    {
        Vec2i::cons(self.x - other.x, self.y - other.y)
    }
}

impl Vec2u {
    pub fn cons(x: usize, y: usize) -> (r: Vec2u)
        ensures
            r.x == x,
            r.y == y,
    {
        Vec2u { x, y }
    }
}

impl Vec3i {
    pub fn cons(x: i32, y: i32, z: i32) -> (r: Vec3i)
        ensures
            r.x == x,
            r.y == y,
            r.z == z,
    {
        Vec3i { x, y, z }
    }

    /// The determinant of the x and y components of `self` and `other`.
    pub fn determinant_xy(&self, other: &Self) -> (r: i64)
        ensures
            r == det2(self.x as int, self.y as int, other.x as int, other.y as int),
    {
        assert(-0x3fff_ffff_8000_0000 <= self.x as int * other.y as int <= 0x4000_0000_0000_0000)
            by (nonlinear_arith);
        assert(-0x3fff_ffff_8000_0000 <= self.y as int * other.x as int <= 0x4000_0000_0000_0000)
            by (nonlinear_arith);
        self.x as i64 * other.y as i64 - self.y as i64 * other.x as i64
    }

    /// Componentwise sum.
    pub fn add(self, other: Vec3i) -> (r: Vec3i)
        requires
            i32::MIN <= self.x + other.x <= i32::MAX,
            i32::MIN <= self.y + other.y <= i32::MAX,
            i32::MIN <= self.z + other.z <= i32::MAX,
        ensures
            r.x == self.x + other.x,
            r.y == self.y + other.y,
            r.z == self.z + other.z,
    {
        Vec3i::cons(self.x + other.x, self.y + other.y, self.z + other.z)
    }

    /// Componentwise difference.
    pub fn sub(self, other: Vec3i) -> (r: Vec3i)
        requires
            i32::MIN <= self.x - other.x <= i32::MAX,
            i32::MIN <= self.y - other.y <= i32::MAX,
            i32::MIN <= self.z - other.z <= i32::MAX,
        ensures
            r.x == self.x - other.x,
            r.y == self.y - other.y,
            r.z == self.z - other.z,
    {
        Vec3i::cons(self.x - other.x, self.y - other.y, self.z - other.z)
    }
}

/// Integer vector in three dimensions, wide enough for products of `i32`
/// coordinates.
#[derive(Debug, Clone, Copy, PartialEq, Eq, Structural)]
pub struct Vec3Wide {
    pub x: i128,
    pub y: i128,
    pub z: i128,
}

impl Vec3i {
    /// Clamps x to `[min_x, max_x]` and y to `[min_y, max_y]`, leaving z.
    pub fn clamp_xy(&mut self, min_x: i32, max_x: i32, min_y: i32, max_y: i32)
        requires
            min_x <= max_x,
            min_y <= max_y,
        ensures
            final(self).x == clamp(old(self).x as int, min_x as int, max_x as int),
            final(self).y == clamp(old(self).y as int, min_y as int, max_y as int),
            final(self).z == old(self).z,
    {
        self.x = clamp_i32(self.x, min_x, max_x);
        self.y = clamp_i32(self.y, min_y, max_y);
    }
}

/// A product of bounded factors is bounded by the product of the bounds.
pub proof fn lemma_mul_within(p: int, q: int, bp: int, bq: int)
    requires
        -bp <= p <= bp,
        -bq <= q <= bq,
    ensures
        -(bp * bq) <= p * q <= bp * bq,
{
    assert(-(bp * bq) <= p * q <= bp * bq) by (nonlinear_arith)
        requires
            -bp <= p <= bp,
            -bq <= q <= bq,
    ;
}

/// `v` held within `[lo, hi]`.
pub open spec fn clamp(v: int, lo: int, hi: int) -> int {
    if v < lo {
        lo
    } else if v > hi {
        hi
    } else {
        v
    }
}

fn clamp_i32(v: i32, lo: i32, hi: i32) -> (r: i32)
    requires
        lo <= hi,
    ensures
        r == clamp(v as int, lo as int, hi as int),
{
    if v < lo {
        lo
    } else if v > hi {
        hi
    } else {
        v
    }
}

} // verus!
