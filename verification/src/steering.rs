//! Per-tick steering: follow the current waypoint, blended with a
//! separation force pushing nearby agents (and the player) apart.
//!
//! Directions are approximated in fixed point: a unit vector is scaled by
//! `NORM_SCALE`, with an exact integer square root for the length and
//! truncating division for each component. Every function's contract states
//! the result exactly over those operations, so the whole pipeline — path
//! direction, linearly decaying repulsion, blending and final rescaling to
//! the agent's speed — is pinned down to the last integer.

use vstd::prelude::*;
use crate::agent::{Agent, SPEED_LIMIT};
use crate::math::{
    isqrt, lemma_abs_mul_bound, lemma_mul_div_trunc_bound, lemma_mul_div_trunc_neg,
    lemma_sqrt_floor_bounds, mul_div, mul_div_trunc, sqrt_floor,
};
use crate::vec2::{
    g_add, g_neg, g_norm_sq, g_sub, lemma_square_bounds, GVec2, Vec2I, COORD_LIMIT,
};

verus! {

/// Fixed-point scale of approximate unit vectors.
pub const NORM_SCALE: i64 = 1000;

/// Default separation radius, in world units.
pub const SEPARATION_RADIUS: i64 = 25;

/// Default separation strength multiplier.
pub const SEPARATION_STRENGTH: i64 = 3;

/// Default distance at which a waypoint counts as reached.
pub const ARRIVAL_THRESHOLD: i64 = 2;

/// Largest separation strength the arithmetic accepts.
pub const STRENGTH_LIMIT: i64 = 100;

/// Most neighbors one separation scan accepts.
pub const MAX_NEIGHBORS: usize = 10_000;

/// Length (floor) of a vector.
pub open spec fn g_len(v: GVec2) -> int {
    sqrt_floor(g_norm_sq(v) as nat) as int
}

/// `v` rescaled to length about `s` (exactly: each component multiplied by
/// `s` and divided, truncating toward zero, by the floor length). The zero
/// vector stays zero.
pub open spec fn g_norm_scaled(v: GVec2, s: int) -> GVec2 {
    let l = g_len(v);
    if l == 0 {
        GVec2 { x: 0, y: 0 }
    } else {
        GVec2 { x: mul_div_trunc(v.x, s, l), y: mul_div_trunc(v.y, s, l) }
    }
}

/// The linearly decaying weight `(1 - d / radius)`, scaled by `NORM_SCALE`.
pub open spec fn g_decay_weight(d: int, radius: int) -> int
    recommends
        0 <= d < radius,
{
    ((radius - d) * (NORM_SCALE as int)) / radius
}

/// Repulsion felt at `pos` from a neighbor at `other`: the unit vector away
/// from the neighbor, weighted by the linear decay; zero for coincident
/// points and at or beyond the radius.
pub open spec fn g_repulsion(pos: GVec2, other: GVec2, radius: int) -> GVec2 {
    let diff = g_sub(pos, other);
    let d2 = g_norm_sq(diff);
    if d2 > 0 && d2 < radius * radius {
        let n = g_norm_scaled(diff, NORM_SCALE as int);
        let w = g_decay_weight(g_len(diff), radius);
        GVec2 {
            x: mul_div_trunc(n.x, w, NORM_SCALE as int),
            y: mul_div_trunc(n.y, w, NORM_SCALE as int),
        }
    } else {
        GVec2 { x: 0, y: 0 }
    }
}

/// Sum of the repulsions from the first `k` neighbors.
pub open spec fn g_separation_prefix(pos: GVec2, others: Seq<Vec2I>, radius: int, k: int) -> GVec2
    decreases k,
{
    if k <= 0 {
        GVec2 { x: 0, y: 0 }
    } else {
        g_add(
            g_separation_prefix(pos, others, radius, k - 1),
            g_repulsion(pos, others[k - 1]@, radius),
        )
    }
}

/// Total separation force: every neighbor, then the player if present.
pub open spec fn g_separation(
    pos: GVec2,
    others: Seq<Vec2I>,
    player: Option<GVec2>,
    radius: int,
) -> GVec2 {
    let base = g_separation_prefix(pos, others, radius, others.len() as int);
    match player {
        Some(pp) => g_add(base, g_repulsion(pos, pp, radius)),
        None => base,
    }
}

/// The full steering formula: normalized path direction plus the separation
/// force times `strength`, renormalized and scaled to `speed`.
pub open spec fn g_steer_velocity(
    pos: GVec2,
    waypoint: GVec2,
    others: Seq<Vec2I>,
    player: Option<GVec2>,
    radius: int,
    strength: int,
    speed: int,
) -> GVec2 {
    let path_dir = g_norm_scaled(g_sub(waypoint, pos), NORM_SCALE as int);
    let sep = g_separation(pos, others, player, radius);
    let steering = GVec2 { x: path_dir.x + sep.x * strength, y: path_dir.y + sep.y * strength };
    let ns = g_norm_scaled(steering, NORM_SCALE as int);
    GVec2 {
        x: mul_div_trunc(ns.x, speed, NORM_SCALE as int),
        y: mul_div_trunc(ns.y, speed, NORM_SCALE as int),
    }
}

/// The spec-level view of an optional player position.
pub open spec fn opt_view(p: Option<Vec2I>) -> Option<GVec2> {
    match p {
        Some(v) => Some(v@),
        None => None,
    }
}

/// A component of a vector is bounded by the vector's floor length plus
/// nothing: `x * x <= n < (l + 1)^2` forces `|x| <= l`.
proof fn lemma_component_le_len(x: int, n: int, l: int)
    requires
        x * x <= n,
        n < (l + 1) * (l + 1),
        0 <= l,
    ensures
        -l <= x <= l,
{
    assert(-l <= x <= l) by (nonlinear_arith)
        requires
            x * x <= n,
            n < (l + 1) * (l + 1),
            0 <= l,
    ;
}

/// A positive squared length has a positive floor square root.
proof fn lemma_sqrt_floor_pos(n: nat)
    requires
        n >= 1,
    ensures
        sqrt_floor(n) >= 1,
{
    lemma_sqrt_floor_bounds(n);
    assert(sqrt_floor(n) >= 1) by (nonlinear_arith)
        requires
            n >= 1,
            n < (sqrt_floor(n) + 1) * (sqrt_floor(n) + 1),
    ;
}

/// Rescale `v` to length about `s` in fixed point; exact integer semantics.
pub fn norm_scaled(v: Vec2I, s: i64) -> (r: Vec2I)
    requires
        -2_000_000_000 <= v.x <= 2_000_000_000,
        -2_000_000_000 <= v.y <= 2_000_000_000,
        1 <= s <= 1_000_000,
    ensures
        r@ == g_norm_scaled(v@, s as int),
        -s <= r.x <= s,
        -s <= r.y <= s,
{
    let d2 = v.norm_sq();
    if d2 == 0 {
        proof {
            lemma_square_bounds(v.x as int, 2_000_000_000);
            lemma_square_bounds(v.y as int, 2_000_000_000);
            assert(v.x == 0 && v.y == 0) by (nonlinear_arith)
                requires
                    (v.x as int) * (v.x as int) + (v.y as int) * (v.y as int) == 0,
            ;
        }
        Vec2I::zero()
    } else {
        let l64 = isqrt(d2 as u64);
        proof {
            lemma_sqrt_floor_pos(d2 as nat);
            lemma_square_bounds(v.x as int, 2_000_000_000);
            lemma_square_bounds(v.y as int, 2_000_000_000);
            assert(l64 <= 3_000_000_000) by (nonlinear_arith)
                requires
                    (l64 as int) * (l64 as int) <= d2 as int,
                    d2 <= 8_000_000_000_000_000_000,
                    0 <= l64,
            ;
            lemma_component_le_len(v.x as int, d2 as int, l64 as int);
            lemma_component_le_len(v.y as int, d2 as int, l64 as int);
            lemma_mul_div_trunc_bound(v.x as int, s as int, l64 as int);
            lemma_mul_div_trunc_bound(v.y as int, s as int, l64 as int);
        }
        let l = l64 as i64;
        Vec2I { x: mul_div(v.x, s, l), y: mul_div(v.y, s, l) }
    }
}

/// Repulsion felt at `pos` from one neighbor; exact integer semantics.
fn repulsion(pos: Vec2I, other: Vec2I, radius: i64) -> (r: Vec2I)
    requires
        pos.in_bounds(),
        other.in_bounds(),
        1 <= radius <= COORD_LIMIT,
    ensures
        r@ == g_repulsion(pos@, other@, radius as int),
        -NORM_SCALE <= r.x <= NORM_SCALE,
        -NORM_SCALE <= r.y <= NORM_SCALE,
{
    let diff = pos.sub(other);
    let d2 = diff.norm_sq();
    proof {
        lemma_abs_mul_bound(radius as int, radius as int, COORD_LIMIT as int, COORD_LIMIT as int);
    }
    if d2 > 0 && d2 < radius * radius {
        let l64 = isqrt(d2 as u64);
        proof {
            lemma_sqrt_floor_pos(d2 as nat);
            assert((l64 as int) < radius) by (nonlinear_arith)
                requires
                    (l64 as int) * (l64 as int) <= d2 as int,
                    (d2 as int) < radius * radius,
                    0 <= l64,
                    0 < radius,
            ;
        }
        let l = l64 as i64;
        let n = norm_scaled(diff, NORM_SCALE);
        let w = mul_div(radius - l, NORM_SCALE, radius);
        proof {
            lemma_mul_div_trunc_bound((radius - l) as int, NORM_SCALE as int, radius as int);
            lemma_mul_div_trunc_bound(n.x as int, w as int, NORM_SCALE as int);
            lemma_mul_div_trunc_bound(n.y as int, w as int, NORM_SCALE as int);
        }
        Vec2I { x: mul_div(n.x, w, NORM_SCALE), y: mul_div(n.y, w, NORM_SCALE) }
    } else {
        Vec2I::zero()
    }
}

/// The separation force at `pos` from every other agent and the player.
pub fn separation_force(
    pos: Vec2I,
    others: &Vec<Vec2I>,
    player: Option<Vec2I>,
    radius: i64,
) -> (r: Vec2I)
    requires
        pos.in_bounds(),
        forall|i: int| 0 <= i < others@.len() ==> (#[trigger] others@[i]).in_bounds(),
        others@.len() <= MAX_NEIGHBORS,
        player matches Some(p) ==> p.in_bounds(),
        1 <= radius <= COORD_LIMIT,
    ensures
        r@ == g_separation(pos@, others@, opt_view(player), radius as int),
        -(others@.len() + 1) * NORM_SCALE <= r.x <= (others@.len() + 1) * NORM_SCALE,
        -(others@.len() + 1) * NORM_SCALE <= r.y <= (others@.len() + 1) * NORM_SCALE,
{
    let n = others.len();
    let mut sx: i64 = 0;
    let mut sy: i64 = 0;
    let mut i: usize = 0;
    while i < n
        invariant
            n == others@.len() <= MAX_NEIGHBORS,
            i <= n,
            pos.in_bounds(),
            forall|k: int| 0 <= k < others@.len() ==> (#[trigger] others@[k]).in_bounds(),
            1 <= radius <= COORD_LIMIT,
            (GVec2 { x: sx as int, y: sy as int }) == g_separation_prefix(
                pos@,
                others@,
                radius as int,
                i as int,
            ),
            -(i as int) * NORM_SCALE <= sx <= (i as int) * NORM_SCALE,
            -(i as int) * NORM_SCALE <= sy <= (i as int) * NORM_SCALE,
        decreases n - i,
    {
        let c = repulsion(pos, others[i], radius);
        sx = sx + c.x;
        sy = sy + c.y;
        i = i + 1;
    }
    match player {
        Some(pp) => {
            let c = repulsion(pos, pp, radius);
            Vec2I { x: sx + c.x, y: sy + c.y }
        },
        None => Vec2I { x: sx, y: sy },
    }
}

/// The velocity command for a walking agent: path direction toward
/// `waypoint` blended with the separation force, normalized and scaled to
/// `speed`. Its magnitude never exceeds `speed`.
pub fn steer_velocity(
    pos: Vec2I,
    waypoint: Vec2I,
    others: &Vec<Vec2I>,
    player: Option<Vec2I>,
    radius: i64,
    strength: i64,
    speed: u64,
) -> (r: Vec2I)
    requires
        pos.in_bounds(),
        waypoint.in_bounds(),
        forall|i: int| 0 <= i < others@.len() ==> (#[trigger] others@[i]).in_bounds(),
        others@.len() <= MAX_NEIGHBORS,
        player matches Some(p) ==> p.in_bounds(),
        1 <= radius <= COORD_LIMIT,
        1 <= strength <= STRENGTH_LIMIT,
        speed <= SPEED_LIMIT,
    ensures
        r@ == g_steer_velocity(
            pos@,
            waypoint@,
            others@,
            opt_view(player),
            radius as int,
            strength as int,
            speed as int,
        ),
        -(speed as int) <= r.x <= speed as int,
        -(speed as int) <= r.y <= speed as int,
{
    let path_dir = norm_scaled(waypoint.sub(pos), NORM_SCALE);
    let sep = separation_force(pos, others, player, radius);
    proof {
        lemma_abs_mul_bound(sep.x as int, strength as int, 10_001_000, 100);
        lemma_abs_mul_bound(sep.y as int, strength as int, 10_001_000, 100);
    }
    let steering = Vec2I { x: path_dir.x + sep.x * strength, y: path_dir.y + sep.y * strength };
    let ns = norm_scaled(steering, NORM_SCALE);
    proof {
        lemma_mul_div_trunc_bound(ns.x as int, speed as int, NORM_SCALE as int);
        lemma_mul_div_trunc_bound(ns.y as int, speed as int, NORM_SCALE as int);
    }
    Vec2I { x: mul_div(ns.x, speed as i64, NORM_SCALE), y: mul_div(ns.y, speed as i64, NORM_SCALE) }
}

/// The movement phase for one agent: a walking agent with a waypoint ahead
/// gets the steering velocity; any other agent has its velocity forced to
/// zero, so an idle agent never drifts.
pub fn apply_movement(
    agent: &mut Agent,
    others: &Vec<Vec2I>,
    player: Option<Vec2I>,
    radius: i64,
    strength: i64,
)
    requires
        old(agent).wf(),
        forall|i: int| 0 <= i < others@.len() ==> (#[trigger] others@[i]).in_bounds(),
        others@.len() <= MAX_NEIGHBORS,
        player matches Some(p) ==> p.in_bounds(),
        1 <= radius <= COORD_LIMIT,
        1 <= strength <= STRENGTH_LIMIT,
    ensures
        final(agent).wf(),
        final(agent).position == old(agent).position,
        final(agent).region == old(agent).region,
        final(agent).wander == old(agent).wander,
        final(agent).cycles == old(agent).cycles,
        final(agent).idle_timer == old(agent).idle_timer,
        final(agent).walk == old(agent).walk,
        ({
            let w = old(agent).walk->0;
            if old(agent).is_walking() && w.path.waypoints@.len() > 0 {
                final(agent).velocity@ == g_steer_velocity(
                    old(agent).position@,
                    w.path.waypoints@[0]@,
                    others@,
                    opt_view(player),
                    radius as int,
                    strength as int,
                    w.speed as int,
                )
            } else {
                final(agent).velocity@ == (GVec2 { x: 0, y: 0 })
            }
        }),
{
    let mut target: Option<(Vec2I, u64)> = None;
    match &agent.walk {
        Some(w) => {
            match w.path.current() {
                Some(wp) => {
                    target = Some((wp, w.speed));
                },
                None => {},
            }
        },
        None => {},
    }
    match target {
        Some((wp, speed)) => {
            agent.velocity = steer_velocity(
                agent.position,
                wp,
                others,
                player,
                radius,
                strength,
                speed,
            );
        },
        None => {
            agent.velocity = Vec2I::zero();
        },
    }
}

/// Which way a sprite should face while heading to `waypoint`: the sign of
/// the horizontal component of `waypoint - pos`, or `None` when it is zero.
pub fn facing_toward(pos: Vec2I, waypoint: Vec2I) -> (r: Option<Facing>)
    ensures
        r == if waypoint.x > pos.x {
            Some(Facing::Right)
        } else if waypoint.x < pos.x {
            Some(Facing::Left)
        } else {
            None::<Facing>
        },
{
    if waypoint.x > pos.x {
        Some(Facing::Right)
    } else if waypoint.x < pos.x {
        Some(Facing::Left)
    } else {
        None
    }
}

/// Horizontal facing of a sprite.
#[derive(Clone, Copy, Debug, PartialEq, Eq, Structural)]
pub enum Facing {
    Left,
    Right,
}

/// Law: two agents within the separation radius repel each other with
/// exactly opposite vectors, so the magnitude each experiences is the same.
pub proof fn lemma_separation_symmetry(a: GVec2, b: GVec2, radius: int)
    requires
        1 <= radius,
    ensures
        g_repulsion(a, b, radius) == g_neg(g_repulsion(b, a, radius)),
        g_norm_sq(g_repulsion(a, b, radius)) == g_norm_sq(g_repulsion(b, a, radius)),
{
    let dab = g_sub(a, b);
    let dba = g_sub(b, a);
    assert(dba == g_neg(dab));
    assert(g_norm_sq(dba) == g_norm_sq(dab)) by (nonlinear_arith)
        requires
            dba.x == -dab.x && dba.y == -dab.y,
    ;
    let d2 = g_norm_sq(dab);
    if d2 > 0 && d2 < radius * radius {
        let l = g_len(dab);
        lemma_sqrt_floor_pos(d2 as nat);
        lemma_mul_div_trunc_neg(dab.x, NORM_SCALE as int, l);
        lemma_mul_div_trunc_neg(dab.y, NORM_SCALE as int, l);
        let nab = g_norm_scaled(dab, NORM_SCALE as int);
        let nba = g_norm_scaled(dba, NORM_SCALE as int);
        assert(nba == g_neg(nab));
        let w = g_decay_weight(l, radius);
        lemma_mul_div_trunc_neg(nab.x, w, NORM_SCALE as int);
        lemma_mul_div_trunc_neg(nab.y, w, NORM_SCALE as int);
        let rab = g_repulsion(a, b, radius);
        let rba = g_repulsion(b, a, radius);
        assert(rba == g_neg(rab));
        assert(g_norm_sq(rba) == g_norm_sq(rab)) by (nonlinear_arith)
            requires
                rba.x == -rab.x && rba.y == -rab.y,
        ;
    }
}

} // verus!
