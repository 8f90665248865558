//! Polygonal navigation regions: containment, edge clearance, interior
//! sampling, and the first-match membership resolver.
//!
//! Containment follows the odd-even rule: a point is inside when a
//! horizontal ray cast to the right crosses an odd number of edges. The spec
//! functions here state that rule exactly over integer coordinates, with the
//! ray test written as a cross-multiplied comparison so that no rounding is
//! involved anywhere.

use vstd::prelude::*;
use crate::math::{div_trunc, div_trunc_exec, lemma_abs_mul_bound, lemma_div_trunc_bound};
use crate::rng::sample_i64_half_open;
use crate::vec2::{GVec2, Vec2I, g_dot, g_norm_sq, g_sub, COORD_LIMIT};

verus! {

/// Most vertices a region may hold.
pub const MAX_VERTICES: usize = 10_000;

/// Default clearance between a sampled target and the region's edges, in
/// world units; it should match the navigation mesh's agent radius, else
/// paths can clip obstacles.
pub const EDGE_MARGIN: i64 = 5;

/// The edge from `a` to `b` straddles the horizontal line through `p`.
pub open spec fn edge_straddles(a: GVec2, b: GVec2, p: GVec2) -> bool {
    (a.y > p.y) != (b.y > p.y)
}

/// `p` lies strictly left of where the edge from `a` to `b` meets the
/// horizontal line through `p`. Written cross-multiplied by `b.y - a.y`,
/// which is nonzero whenever the edge straddles that line.
pub open spec fn strictly_left_of_edge(a: GVec2, b: GVec2, p: GVec2) -> bool {
    let dy = b.y - a.y;
    if dy > 0 {
        (p.x - a.x) * dy < (b.x - a.x) * (p.y - a.y)
    } else {
        (p.x - a.x) * dy > (b.x - a.x) * (p.y - a.y)
    }
}

/// A rightward horizontal ray from `p` crosses the edge from `a` to `b`.
pub open spec fn edge_crossing(a: GVec2, b: GVec2, p: GVec2) -> bool {
    edge_straddles(a, b, p) && strictly_left_of_edge(a, b, p)
}

/// First endpoint of edge `k` of the closed polygon `vs`.
pub open spec fn edge_start(vs: Seq<Vec2I>, k: int) -> GVec2 {
    vs[k]@
}

/// Second endpoint of edge `k`: the next vertex, wrapping at the end.
pub open spec fn edge_end(vs: Seq<Vec2I>, k: int) -> GVec2 {
    if k + 1 == vs.len() {
        vs[0]@
    } else {
        vs[k + 1]@
    }
}

/// How many of the first `k` edges the rightward ray from `p` crosses.
pub open spec fn crossings_up_to(vs: Seq<Vec2I>, p: GVec2, k: int) -> nat
    decreases k,
{
    if k <= 0 {
        0
    } else {
        crossings_up_to(vs, p, k - 1) + if edge_crossing(
            edge_start(vs, k - 1),
            edge_end(vs, k - 1),
            p,
        ) {
            1nat
        } else {
            0nat
        }
    }
}

/// The odd-even rule: inside means an odd number of edge crossings.
/// A polygon with fewer than three vertices contains nothing.
pub open spec fn polygon_contains(vs: Seq<Vec2I>, p: GVec2) -> bool {
    vs.len() >= 3 && crossings_up_to(vs, p, vs.len() as int) % 2 == 1
}

/// How many of the first `k` edges straddle the horizontal line through `p`.
pub open spec fn straddles_up_to(vs: Seq<Vec2I>, p: GVec2, k: int) -> nat
    decreases k,
{
    if k <= 0 {
        0
    } else {
        straddles_up_to(vs, p, k - 1) + if edge_straddles(
            edge_start(vs, k - 1),
            edge_end(vs, k - 1),
            p,
        ) {
            1nat
        } else {
            0nat
        }
    }
}

proof fn lemma_crossings_zero(vs: Seq<Vec2I>, p: GVec2, k: int)
    requires
        0 <= k <= vs.len(),
        forall|j: int|
            0 <= j < k ==> !edge_crossing(#[trigger] edge_start(vs, j), edge_end(vs, j), p),
    ensures
        crossings_up_to(vs, p, k) == 0,
    decreases k,
{
    if k > 0 {
        lemma_crossings_zero(vs, p, k - 1);
    }
}

/// An edge whose endpoints are both at or left of `p` cannot put `p`
/// strictly left of it.
proof fn lemma_straddle_right_not_left(a: GVec2, b: GVec2, p: GVec2)
    requires
        edge_straddles(a, b, p),
        p.x >= a.x,
        p.x >= b.x,
    ensures
        !strictly_left_of_edge(a, b, p),
{
    let dy = b.y - a.y;
    if dy > 0 {
        assert(a.y <= p.y < b.y);
        assert((p.x - a.x) * dy >= (b.x - a.x) * (p.y - a.y)) by (nonlinear_arith)
            requires
                p.x >= a.x,
                p.x >= b.x,
                a.y <= p.y < b.y,
                dy == b.y - a.y,
        ;
    } else if dy < 0 {
        assert(b.y <= p.y < a.y);
        assert((p.x - a.x) * dy <= (b.x - a.x) * (p.y - a.y)) by (nonlinear_arith)
            requires
                p.x >= a.x,
                p.x >= b.x,
                b.y <= p.y < a.y,
                dy == b.y - a.y,
        ;
    }
}

/// An edge whose endpoints are both strictly right of `p` always puts `p`
/// strictly left of it once it straddles `p`'s line.
proof fn lemma_straddle_left_is_left(a: GVec2, b: GVec2, p: GVec2)
    requires
        edge_straddles(a, b, p),
        p.x < a.x,
        p.x < b.x,
    ensures
        strictly_left_of_edge(a, b, p),
{
    let dy = b.y - a.y;
    if dy > 0 {
        assert(a.y <= p.y < b.y);
        assert((p.x - a.x) * dy < (b.x - a.x) * (p.y - a.y)) by (nonlinear_arith)
            requires
                p.x < a.x,
                p.x < b.x,
                a.y <= p.y < b.y,
                dy == b.y - a.y,
        ;
    } else if dy < 0 {
        assert(b.y <= p.y < a.y);
        assert((p.x - a.x) * dy > (b.x - a.x) * (p.y - a.y)) by (nonlinear_arith)
            requires
                p.x < a.x,
                p.x < b.x,
                b.y <= p.y < a.y,
                dy == b.y - a.y,
        ;
    }
}

/// Among the chain edges `0 .. k` (no wrap-around), the straddle count is
/// odd exactly when the first and the `k`-th vertex sit on opposite sides of
/// `p`'s horizontal line.
proof fn lemma_straddles_chain(vs: Seq<Vec2I>, p: GVec2, k: int)
    requires
        0 <= k < vs.len(),
    ensures
        straddles_up_to(vs, p, k) % 2 == (if (vs[0]@.y > p.y) != (vs[k]@.y > p.y) {
            1nat
        } else {
            0nat
        }),
    decreases k,
{
    if k > 0 {
        lemma_straddles_chain(vs, p, k - 1);
        assert(edge_start(vs, k - 1) == vs[k - 1]@);
        assert(edge_end(vs, k - 1) == vs[k]@);
    }
}

/// Going once around a closed polygon, the number of edges straddling any
/// horizontal line is even.
proof fn lemma_straddles_even(vs: Seq<Vec2I>, p: GVec2)
    requires
        vs.len() >= 1,
    ensures
        straddles_up_to(vs, p, vs.len() as int) % 2 == 0,
{
    let n = vs.len() as int;
    lemma_straddles_chain(vs, p, n - 1);
    assert(edge_start(vs, n - 1) == vs[n - 1]@);
    assert(edge_end(vs, n - 1) == vs[0]@);
}

proof fn lemma_crossings_eq_straddles(vs: Seq<Vec2I>, p: GVec2, k: int)
    requires
        0 <= k <= vs.len(),
        forall|j: int|
            0 <= j < k ==> edge_crossing(#[trigger] edge_start(vs, j), edge_end(vs, j), p)
                == edge_straddles(edge_start(vs, j), edge_end(vs, j), p),
    ensures
        crossings_up_to(vs, p, k) == straddles_up_to(vs, p, k),
    decreases k,
{
    if k > 0 {
        lemma_crossings_eq_straddles(vs, p, k - 1);
    }
}

/// A point on or beyond the polygon's bounding box is never contained: at or
/// above every vertex, strictly below every vertex, at or right of every
/// vertex, or strictly left of every vertex.
pub proof fn lemma_outside_bounding_box_not_contained(vs: Seq<Vec2I>, p: GVec2)
    requires
        (forall|i: int| 0 <= i < vs.len() ==> p.y >= (#[trigger] vs[i])@.y)
            || (forall|i: int| 0 <= i < vs.len() ==> p.y < (#[trigger] vs[i])@.y)
            || (forall|i: int| 0 <= i < vs.len() ==> p.x >= (#[trigger] vs[i])@.x)
            || (forall|i: int| 0 <= i < vs.len() ==> p.x < (#[trigger] vs[i])@.x),
    ensures
        !polygon_contains(vs, p),
{
    let n = vs.len() as int;
    if n >= 3 {
        if forall|i: int| 0 <= i < vs.len() ==> p.y >= (#[trigger] vs[i])@.y {
            assert forall|j: int|
                0 <= j < n implies !edge_crossing(
                #[trigger] edge_start(vs, j),
                edge_end(vs, j),
                p,
            ) by {
                assert(p.y >= vs[j]@.y);
                assert(p.y >= (if j + 1 == n { vs[0]@ } else { vs[j + 1]@ }).y);
            }
            lemma_crossings_zero(vs, p, n);
        } else if forall|i: int| 0 <= i < vs.len() ==> p.y < (#[trigger] vs[i])@.y {
            assert forall|j: int|
                0 <= j < n implies !edge_crossing(
                #[trigger] edge_start(vs, j),
                edge_end(vs, j),
                p,
            ) by {
                assert(p.y < vs[j]@.y);
                assert(p.y < (if j + 1 == n { vs[0]@ } else { vs[j + 1]@ }).y);
            }
            lemma_crossings_zero(vs, p, n);
        } else if forall|i: int| 0 <= i < vs.len() ==> p.x >= (#[trigger] vs[i])@.x {
            assert forall|j: int|
                0 <= j < n implies !edge_crossing(
                #[trigger] edge_start(vs, j),
                edge_end(vs, j),
                p,
            ) by {
                let a = edge_start(vs, j);
                let b = edge_end(vs, j);
                assert(p.x >= vs[j]@.x);
                assert(p.x >= (if j + 1 == n { vs[0]@ } else { vs[j + 1]@ }).x);
                if edge_straddles(a, b, p) {
                    lemma_straddle_right_not_left(a, b, p);
                }
            }
            lemma_crossings_zero(vs, p, n);
        } else {
            assert(forall|i: int| 0 <= i < vs.len() ==> p.x < (#[trigger] vs[i])@.x);
            assert forall|j: int|
                0 <= j < n implies edge_crossing(#[trigger] edge_start(vs, j), edge_end(vs, j), p)
                == edge_straddles(edge_start(vs, j), edge_end(vs, j), p) by {
                let a = edge_start(vs, j);
                let b = edge_end(vs, j);
                assert(p.x < vs[j]@.x);
                assert(p.x < (if j + 1 == n { vs[0]@ } else { vs[j + 1]@ }).x);
                if edge_straddles(a, b, p) {
                    lemma_straddle_left_is_left(a, b, p);
                }
            }
            lemma_crossings_eq_straddles(vs, p, n);
            lemma_straddles_even(vs, p);
        }
    }
}

/// The distance from `p` to the segment from `a` to `b` is at least `m`,
/// stated exactly: the closest point of the segment is `a + t * (b - a)`
/// with `t = clamp(dot(ap, ab) / |ab|^2, 0, 1)`, and each clamp case turns
/// into a cross-multiplied comparison of squared distances.
pub open spec fn segment_clears(a: GVec2, b: GVec2, p: GVec2, m: int) -> bool {
    let ab = g_sub(b, a);
    let ap = g_sub(p, a);
    let ll = g_norm_sq(ab);
    let dd = g_dot(ap, ab);
    if ll == 0 {
        g_norm_sq(ap) >= m * m
    } else if dd <= 0 {
        g_norm_sq(ap) >= m * m
    } else if dd >= ll {
        g_norm_sq(g_sub(p, b)) >= m * m
    } else {
        g_norm_sq(ap) * ll - dd * dd >= m * m * ll
    }
}

/// `p` keeps at least distance `m` from every edge of the polygon.
pub open spec fn region_clears(vs: Seq<Vec2I>, p: GVec2, m: int) -> bool {
    forall|k: int|
        0 <= k < vs.len() ==> segment_clears(#[trigger] edge_start(vs, k), edge_end(vs, k), p, m)
}

/// Sum of the x coordinates of a vertex list.
pub open spec fn sum_x(vs: Seq<Vec2I>) -> int
    decreases vs.len(),
{
    if vs.len() == 0 {
        0
    } else {
        sum_x(vs.drop_last()) + vs.last().x
    }
}

/// Sum of the y coordinates of a vertex list.
pub open spec fn sum_y(vs: Seq<Vec2I>) -> int
    decreases vs.len(),
{
    if vs.len() == 0 {
        0
    } else {
        sum_y(vs.drop_last()) + vs.last().y
    }
}

/// The unweighted vertex centroid, with truncating division.
pub open spec fn centroid_of(vs: Seq<Vec2I>) -> GVec2
    recommends
        vs.len() >= 1,
{
    GVec2 {
        x: div_trunc(sum_x(vs), vs.len() as int),
        y: div_trunc(sum_y(vs), vs.len() as int),
    }
}

proof fn lemma_sum_bounds(vs: Seq<Vec2I>)
    requires
        forall|i: int| 0 <= i < vs.len() ==> (#[trigger] vs[i]).in_bounds(),
    ensures
        -(vs.len() as int) * (COORD_LIMIT as int) <= sum_x(vs) <= (vs.len() as int) * (
        COORD_LIMIT as int),
        -(vs.len() as int) * (COORD_LIMIT as int) <= sum_y(vs) <= (vs.len() as int) * (
        COORD_LIMIT as int),
    decreases vs.len(),
{
    if vs.len() > 0 {
        assert(forall|i: int|
            0 <= i < vs.drop_last().len() ==> (#[trigger] vs.drop_last()[i]).in_bounds());
        lemma_sum_bounds(vs.drop_last());
        assert(vs.last().in_bounds());
    }
}

/// A walkable area: a simple closed polygon in world space.
pub struct NavigationRegion {
    vertices: Vec<Vec2I>,
}

impl View for NavigationRegion {
    type V = Seq<Vec2I>;

    closed spec fn view(&self) -> Seq<Vec2I> {
        self.vertices@
    }
}

impl NavigationRegion {
    /// Every vertex is a bounded coordinate and the count is bounded.
    pub open spec fn wf(&self) -> bool {
        &&& self@.len() <= MAX_VERTICES
        &&& forall|i: int| 0 <= i < self@.len() ==> (#[trigger] self@[i]).in_bounds()
    }

    pub fn new(vertices: Vec<Vec2I>) -> (r: Self)
        requires
            vertices@.len() <= MAX_VERTICES,
            forall|i: int| 0 <= i < vertices@.len() ==> (#[trigger] vertices@[i]).in_bounds(),
        ensures
            r@ == vertices@,
            r.wf(),
    {
        NavigationRegion { vertices }
    }

    /// Build a region from authoring-tool polygon data: map editors give
    /// polygon points y-down relative to the owning object's origin, while
    /// world space is y-up, so each world vertex is
    /// `(origin.x + p.x, origin.y - p.y)`.
    pub fn from_authoring_points(origin: Vec2I, points: Vec<Vec2I>) -> (r: Self)
        requires
            points@.len() <= MAX_VERTICES,
            forall|i: int|
                0 <= i < points@.len() ==> {
                    &&& -COORD_LIMIT <= origin.x + (#[trigger] points@[i]).x <= COORD_LIMIT
                    &&& -COORD_LIMIT <= origin.y - points@[i].y <= COORD_LIMIT
                },
        ensures
            r.wf(),
            r@.len() == points@.len(),
            forall|i: int|
                0 <= i < points@.len() ==> {
                    &&& (#[trigger] r@[i]).x == origin.x + points@[i].x
                    &&& r@[i].y == origin.y - points@[i].y
                },
    {
        let n = points.len();
        let mut vertices: Vec<Vec2I> = Vec::new();
        let mut i: usize = 0;
        while i < n
            invariant
                n == points@.len() <= MAX_VERTICES,
                i <= n,
                vertices@.len() == i,
                forall|k: int|
                    0 <= k < points@.len() ==> {
                        &&& -COORD_LIMIT <= origin.x + (#[trigger] points@[k]).x <= COORD_LIMIT
                        &&& -COORD_LIMIT <= origin.y - points@[k].y <= COORD_LIMIT
                    },
                forall|k: int|
                    0 <= k < i ==> {
                        &&& (#[trigger] vertices@[k]).x == origin.x + points@[k].x
                        &&& vertices@[k].y == origin.y - points@[k].y
                    },
            decreases n - i,
        {
            let p = points[i];
            vertices.push(Vec2I { x: origin.x + p.x, y: origin.y - p.y });
            i = i + 1;
        }
        proof {
            assert(forall|k: int| 0 <= k < vertices@.len() ==> (#[trigger] vertices@[k]).in_bounds());
        }
        NavigationRegion { vertices }
    }

    /// Number of vertices.
    pub fn vertex_count(&self) -> (r: usize)
        ensures
            r == self@.len(),
    {
        self.vertices.len()
    }

    /// The vertex at `i`.
    pub fn vertex(&self, i: usize) -> (r: Vec2I)
        requires
            i < self@.len(),
        ensures
            r == self@[i as int],
    {
        self.vertices[i]
    }

    /// Point-in-polygon by the odd-even ray-casting rule, computed exactly.
    pub fn contains(&self, p: Vec2I) -> (r: bool)
        requires
            self.wf(),
            p.in_bounds(),
        ensures
            r == polygon_contains(self@, p@),
    {
        let n = self.vertices.len();
        if n < 3 {
            return false;
        }
        let mut inside = false;
        let mut i: usize = 0;
        while i < n
            invariant
                3 <= n == self@.len() <= MAX_VERTICES,
                i <= n,
                self.wf(),
                p.in_bounds(),
                inside == (crossings_up_to(self@, p@, i as int) % 2 == 1),
            decreases n - i,
        {
            let a = self.vertices[i];
            let b = self.vertices[if i + 1 == n { 0 } else { i + 1 }];
            if (a.y > p.y) != (b.y > p.y) {
                let dy = b.y - a.y;
                proof {
                    lemma_abs_mul_bound(p.x - a.x, dy as int, 2_000_000, 2_000_000);
                    lemma_abs_mul_bound(b.x - a.x, p.y - a.y, 2_000_000, 2_000_000);
                }
                let lhs = (p.x - a.x) * dy;
                let rhs = (b.x - a.x) * (p.y - a.y);
                let crossed = if dy > 0 { lhs < rhs } else { lhs > rhs };
                if crossed {
                    inside = !inside;
                }
            }
            i = i + 1;
        }
        inside
    }

    /// `p` keeps at least `margin` distance from every polygon edge,
    /// decided exactly on squared distances.
    pub fn clears_edge_margin(&self, p: Vec2I, margin: i64) -> (r: bool)
        requires
            self.wf(),
            p.in_bounds(),
            0 <= margin <= COORD_LIMIT,
        ensures
            r == region_clears(self@, p@, margin as int),
    {
        proof {
            lemma_abs_mul_bound(margin as int, margin as int, COORD_LIMIT as int, COORD_LIMIT as int);
        }
        let msq: i64 = margin * margin;
        let n = self.vertices.len();
        let mut i: usize = 0;
        while i < n
            invariant
                n == self@.len() <= MAX_VERTICES,
                i <= n,
                self.wf(),
                p.in_bounds(),
                0 <= margin <= COORD_LIMIT,
                msq == (margin as int) * (margin as int),
                forall|k: int|
                    0 <= k < i ==> segment_clears(
                        #[trigger] edge_start(self@, k),
                        edge_end(self@, k),
                        p@,
                        margin as int,
                    ),
            decreases n - i,
        {
            let a = self.vertices[i];
            let b = self.vertices[if i + 1 == n { 0 } else { i + 1 }];
            let ab = b.sub(a);
            let ap = p.sub(a);
            let ll = ab.norm_sq();
            let dd = ap.dot(ab);
            let clear: bool;
            if ll == 0 || dd <= 0 {
                clear = ap.norm_sq() >= msq;
            } else if dd >= ll {
                let bp = p.sub(b);
                clear = bp.norm_sq() >= msq;
            } else {
                let apsq = ap.norm_sq();
                proof {
                    lemma_abs_mul_bound(
                        apsq as int,
                        ll as int,
                        8_000_000_000_000_000_000,
                        8_000_000_000_000_000_000,
                    );
                    lemma_abs_mul_bound(dd as int, dd as int, 8_000_000_000_000, 8_000_000_000_000);
                    lemma_abs_mul_bound(margin as int, margin as int, COORD_LIMIT as int, COORD_LIMIT as int);
                    lemma_abs_mul_bound(msq as int, ll as int, 1_000_000_000_000, 8_000_000_000_000_000_000);
                }
                clear = (apsq as i128) * (ll as i128) - (dd as i128) * (dd as i128) >= (msq as i128)
                    * (ll as i128);
            }
            if !clear {
                assert(!segment_clears(edge_start(self@, i as int), edge_end(self@, i as int), p@, margin as int));
                return false;
            }
            i = i + 1;
        }
        true
    }

    /// The unweighted centroid of the vertices.
    pub fn centroid(&self) -> (r: Vec2I)
        requires
            self.wf(),
            self@.len() >= 1,
        ensures
            r@ == centroid_of(self@),
            r.in_bounds(),
    {
        let n = self.vertices.len();
        let mut sx: i64 = 0;
        let mut sy: i64 = 0;
        let mut i: usize = 0;
        while i < n
            invariant
                1 <= n == self@.len() <= MAX_VERTICES,
                i <= n,
                self.wf(),
                sx == sum_x(self@.take(i as int)),
                sy == sum_y(self@.take(i as int)),
                -(i as int) * (COORD_LIMIT as int) <= sx <= (i as int) * (COORD_LIMIT as int),
                -(i as int) * (COORD_LIMIT as int) <= sy <= (i as int) * (COORD_LIMIT as int),
            decreases n - i,
        {
            let v = self.vertices[i];
            proof {
                assert(self@.take(i + 1).drop_last() =~= self@.take(i as int));
                assert(self@.take(i + 1).last() == self@[i as int]);
            }
            sx = sx + v.x;
            sy = sy + v.y;
            i = i + 1;
        }
        proof {
            assert(self@.take(n as int) =~= self@);
            lemma_sum_bounds(self@);
            lemma_div_trunc_bound(sx as int, n as int, COORD_LIMIT as int);
            lemma_div_trunc_bound(sy as int, n as int, COORD_LIMIT as int);
        }
        let cx = div_trunc_exec(sx, n as i64);
        let cy = div_trunc_exec(sy, n as i64);
        Vec2I { x: cx, y: cy }
    }

    /// A point of the interior, by rejection sampling over the bounding box:
    /// up to 100 candidates are drawn and the first one that is contained
    /// and keeps `edge_margin` clearance from every edge is returned. When
    /// every attempt fails the vertex centroid is returned instead, which
    /// may sit inside the margin or even outside a non-convex polygon. A
    /// degenerate polygon yields the origin.
    pub fn random_point(&self, edge_margin: i64) -> (r: Vec2I)
        requires
            self.wf(),
            0 <= edge_margin <= COORD_LIMIT,
        ensures
            r.in_bounds(),
            self@.len() < 3 ==> r == (Vec2I { x: 0, y: 0 }),
            self@.len() >= 3 ==> (polygon_contains(self@, r@) && region_clears(
                self@,
                r@,
                edge_margin as int,
            )) || r@ == centroid_of(self@),
    {
        let n = self.vertices.len();
        if n < 3 {
            return Vec2I::zero();
        }
        let v0 = self.vertices[0];
        let mut min_x = v0.x;
        let mut max_x = v0.x;
        let mut min_y = v0.y;
        let mut max_y = v0.y;
        let mut i: usize = 1;
        while i < n
            invariant
                3 <= n == self@.len(),
                i <= n,
                self.wf(),
                -COORD_LIMIT <= min_x <= max_x <= COORD_LIMIT,
                -COORD_LIMIT <= min_y <= max_y <= COORD_LIMIT,
            decreases n - i,
        {
            let v = self.vertices[i];
            if v.x < min_x {
                min_x = v.x;
            }
            if v.x > max_x {
                max_x = v.x;
            }
            if v.y < min_y {
                min_y = v.y;
            }
            if v.y > max_y {
                max_y = v.y;
            }
            i = i + 1;
        }
        let mut attempt: usize = 0;
        while attempt < 100
            invariant
                3 <= n == self@.len(),
                self.wf(),
                0 <= edge_margin <= COORD_LIMIT,
                -COORD_LIMIT <= min_x <= max_x <= COORD_LIMIT,
                -COORD_LIMIT <= min_y <= max_y <= COORD_LIMIT,
            decreases 100 - attempt,
        {
            let x = sample_i64_half_open(min_x, max_x);
            let y = sample_i64_half_open(min_y, max_y);
            let cand = Vec2I { x, y };
            if self.contains(cand) && self.clears_edge_margin(cand, edge_margin) {
                return cand;
            }
            attempt = attempt + 1;
        }
        self.centroid()
    }
}

/// Index of the first region containing `p`, or `None` when no region does.
/// An agent spawned at `p` belongs to that region for its whole life.
pub fn resolve_region(p: Vec2I, regions: &Vec<NavigationRegion>) -> (r: Option<usize>)
    requires
        p.in_bounds(),
        forall|i: int| 0 <= i < regions@.len() ==> (#[trigger] regions@[i]).wf(),
    ensures
        match r {
            Some(i) => {
                &&& i < regions@.len()
                &&& polygon_contains(regions@[i as int]@, p@)
                &&& forall|j: int| 0 <= j < i ==> !polygon_contains(#[trigger] regions@[j]@, p@)
            },
            None => forall|j: int|
                0 <= j < regions@.len() ==> !polygon_contains(#[trigger] regions@[j]@, p@),
        },
{
    let n = regions.len();
    let mut i: usize = 0;
    while i < n
        invariant
            n == regions@.len(),
            i <= n,
            p.in_bounds(),
            forall|k: int| 0 <= k < regions@.len() ==> (#[trigger] regions@[k]).wf(),
            forall|j: int| 0 <= j < i ==> !polygon_contains(#[trigger] regions@[j]@, p@),
        decreases n - i,
    {
        if regions[i].contains(p) {
            return Some(i);
        }
        i = i + 1;
    }
    None
}

} // verus!
