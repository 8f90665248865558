//! Integer 2D vectors and the exact arithmetic the geometry is stated over.
//!
//! World coordinates are fixed-point integers chosen by the caller (for
//! example milli-units). Every coordinate the library works with is bounded
//! by `COORD_LIMIT`, which keeps all intermediate products inside `i64` or
//! `i128` range.

use vstd::prelude::*;

verus! {

/// Largest coordinate magnitude the library accepts.
pub const COORD_LIMIT: i64 = 1_000_000;

/// A 2D vector / point with integer coordinates.
#[derive(Clone, Copy, Debug, PartialEq, Eq, Structural)]
pub struct Vec2I {
    pub x: i64,
    pub y: i64,
}

/// The mathematical (unbounded) model of a vector.
pub ghost struct GVec2 {
    pub x: int,
    pub y: int,
}

impl View for Vec2I {
    type V = GVec2;

    open spec fn view(&self) -> GVec2 {
        GVec2 { x: self.x as int, y: self.y as int }
    }
}

/// Model-level vector difference.
pub open spec fn g_sub(a: GVec2, b: GVec2) -> GVec2 {
    GVec2 { x: a.x - b.x, y: a.y - b.y }
}

/// Model-level vector sum.
pub open spec fn g_add(a: GVec2, b: GVec2) -> GVec2 {
    GVec2 { x: a.x + b.x, y: a.y + b.y }
}

/// Model-level negation.
pub open spec fn g_neg(a: GVec2) -> GVec2 {
    GVec2 { x: -a.x, y: -a.y }
}

/// Squared Euclidean norm.
pub open spec fn g_norm_sq(a: GVec2) -> int {
    a.x * a.x + a.y * a.y
}

/// Dot product.
pub open spec fn g_dot(a: GVec2, b: GVec2) -> int {
    a.x * b.x + a.y * b.y
}

/// Squared Euclidean distance between two points.
pub open spec fn g_dist_sq(a: GVec2, b: GVec2) -> int {
    g_norm_sq(g_sub(a, b))
}

/// Bounding a value bounds its square.
pub proof fn lemma_square_bounds(a: int, b: int)
    requires
        -b <= a <= b,
    ensures
        0 <= a * a <= b * b,
{
    assert(0 <= a * a <= b * b) by (nonlinear_arith)
        requires
            -b <= a <= b,
    ;
}

impl Vec2I {
    /// The coordinate bound every point handled by the library satisfies.
    pub open spec fn in_bounds(self) -> bool {
        -COORD_LIMIT <= self.x <= COORD_LIMIT && -COORD_LIMIT <= self.y <= COORD_LIMIT
    }

    pub fn new(x: i64, y: i64) -> (r: Self)
        ensures
            r.x == x,
            r.y == y,
    {
        Vec2I { x, y }
    }

    pub fn zero() -> (r: Self)
        ensures
            r.x == 0,
            r.y == 0,
    {
        Vec2I { x: 0, y: 0 }
    }

    /// Componentwise difference.
    pub fn sub(self, other: Self) -> (r: Self)
        requires
            self.in_bounds(),
            other.in_bounds(),
        ensures
            r@ == g_sub(self@, other@),
            -2 * COORD_LIMIT <= r.x <= 2 * COORD_LIMIT,
            -2 * COORD_LIMIT <= r.y <= 2 * COORD_LIMIT,
    {
        Vec2I { x: self.x - other.x, y: self.y - other.y }
    }

    /// Squared Euclidean norm; exact.
    pub fn norm_sq(self) -> (r: i64)
        requires
            -2_000_000_000 <= self.x <= 2_000_000_000,
            -2_000_000_000 <= self.y <= 2_000_000_000,
        ensures
            r == g_norm_sq(self@),
            0 <= r <= 8_000_000_000_000_000_000,
    {
        proof {
            lemma_square_bounds(self.x as int, 2_000_000_000);
            lemma_square_bounds(self.y as int, 2_000_000_000);
        }
        self.x * self.x + self.y * self.y
    }

    /// Dot product with another vector; exact.
    pub fn dot(self, other: Self) -> (r: i64)
        requires
            -2_000_000 <= self.x <= 2_000_000,
            -2_000_000 <= self.y <= 2_000_000,
            -2_000_000 <= other.x <= 2_000_000,
            -2_000_000 <= other.y <= 2_000_000,
        ensures
            r == g_dot(self@, other@),
            -8_000_000_000_000 <= r <= 8_000_000_000_000,
    {
        proof {
            crate::math::lemma_abs_mul_bound(self.x as int, other.x as int, 2_000_000, 2_000_000);
            crate::math::lemma_abs_mul_bound(self.y as int, other.y as int, 2_000_000, 2_000_000);
        }
        self.x * other.x + self.y * other.y
    }

    /// Squared Euclidean distance to another point; exact.
    pub fn dist_sq(self, other: Self) -> (r: i64)
        requires
            self.in_bounds(),
            other.in_bounds(),
        ensures
            r == g_dist_sq(self@, other@),
            0 <= r <= 8_000_000_000_000,
    {
        let d = self.sub(other);
        proof {
            lemma_square_bounds(d.x as int, 2_000_000);
            lemma_square_bounds(d.y as int, 2_000_000);
        }
        d.norm_sq()
    }
}

} // verus!
