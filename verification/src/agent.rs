//! The per-agent wander state machine: Idle and Walking.
//!
//! An agent is Idle exactly when it holds an idle timer and Walking exactly
//! when it holds walk state (path, cycle progress, speed); well-formedness
//! makes the two mutually exclusive, so the pair of optional blocks acts as
//! a tagged union. Transitions mirror a fixed-tick pipeline: tick the idle
//! timer, start walking once the timer elapsed and the external navigation
//! mesh produced a path, advance waypoint by waypoint, re-path between walk
//! cycles, and return to Idle after the drawn number of cycles.
//!
//! Path queries are the external service's job: the caller checks
//! `ready_for_path`, samples a target with `NavigationRegion::random_point`,
//! queries its mesh, and hands any non-empty waypoint list to
//! `begin_walking` (or, mid-walk after `NeedsPath`, to `install_path`). A
//! failed query is simply retried on a later tick; the agent keeps its
//! state, as the error model asks.

use vstd::prelude::*;
use crate::math::lemma_abs_mul_bound;
use crate::path::NavigationPath;
use crate::region::{polygon_contains, resolve_region, NavigationRegion};
use crate::rng::{sample_u32_inclusive, sample_u64_half_open};
use crate::vec2::{g_dist_sq, Vec2I, COORD_LIMIT};

verus! {

/// Largest speed value the steering arithmetic accepts.
pub const SPEED_LIMIT: u64 = 1_000_000;

/// Static tuning for wandering: the idle-duration range (caller time units)
/// and the walk-speed range (caller speed units).
#[derive(Clone, Copy, Debug, PartialEq, Eq, Structural)]
pub struct WanderConfig {
    pub min_idle_time: u64,
    pub max_idle_time: u64,
    pub min_speed: u64,
    pub max_speed: u64,
}

impl WanderConfig {
    pub open spec fn wf(self) -> bool {
        &&& self.min_idle_time <= self.max_idle_time
        &&& self.min_speed <= self.max_speed <= SPEED_LIMIT
    }
}

impl Default for WanderConfig {
    fn default() -> (r: Self)
        ensures
            r == (WanderConfig { min_idle_time: 1, max_idle_time: 5, min_speed: 5, max_speed: 10 }),
            r.wf(),
    {
        WanderConfig { min_idle_time: 1, max_idle_time: 5, min_speed: 5, max_speed: 10 }
    }
}

/// How many walk cycles an agent performs per walking episode, inclusive.
#[derive(Clone, Copy, Debug, PartialEq, Eq, Structural)]
pub struct WalkCycles {
    pub min: u32,
    pub max: u32,
}

impl WalkCycles {
    pub open spec fn wf(self) -> bool {
        1 <= self.min <= self.max
    }
}

impl Default for WalkCycles {
    fn default() -> (r: Self)
        ensures
            r == (WalkCycles { min: 2, max: 6 }),
            r.wf(),
    {
        WalkCycles { min: 2, max: 6 }
    }
}

/// Progress through the current walking episode.
#[derive(Clone, Copy, Debug, PartialEq, Eq, Structural)]
pub struct WalkCycleProgress {
    /// Path completions performed so far this episode.
    pub current: u32,
    /// Path completions after which the agent returns to Idle.
    pub target: u32,
}

/// Countdown until an idle agent may walk again.
#[derive(Clone, Copy, Debug, PartialEq, Eq, Structural)]
pub struct IdleTimer {
    pub remaining: u64,
}

impl IdleTimer {
    pub fn new(duration: u64) -> (r: Self)
        ensures
            r.remaining == duration,
    {
        IdleTimer { remaining: duration }
    }

    /// Count down, saturating at zero.
    pub fn tick(&mut self, delta: u64)
        ensures
            final(self).remaining == if old(self).remaining >= delta {
                old(self).remaining - delta
            } else {
                0int
            },
    {
        if self.remaining >= delta {
            self.remaining = self.remaining - delta;
        } else {
            self.remaining = 0;
        }
    }

    pub fn is_finished(&self) -> (r: bool)
        ensures
            r == (self.remaining == 0),
    {
        self.remaining == 0
    }
}

/// Everything a Walking agent carries and an Idle one does not.
pub struct WalkState {
    pub path: NavigationPath,
    pub progress: WalkCycleProgress,
    pub speed: u64,
}

/// Every point a path mentions is a bounded coordinate.
pub open spec fn path_points_in_bounds(p: NavigationPath) -> bool {
    &&& p.destination.in_bounds()
    &&& forall|i: int| 0 <= i < p.waypoints@.len() ==> (#[trigger] p.waypoints@[i]).in_bounds()
}

/// A wandering non-player character.
pub struct Agent {
    pub position: Vec2I,
    pub velocity: Vec2I,
    /// Index of the owning region, assigned once at spawn; an agent with no
    /// match stays without one and therefore idles forever.
    pub region: Option<usize>,
    pub wander: WanderConfig,
    pub cycles: WalkCycles,
    /// Present exactly while Idle.
    pub idle_timer: Option<IdleTimer>,
    /// Present exactly while Walking.
    pub walk: Option<WalkState>,
}

impl Agent {
    pub open spec fn is_idle(self) -> bool {
        self.idle_timer is Some
    }

    pub open spec fn is_walking(self) -> bool {
        self.walk is Some
    }

    /// Well-formedness: valid tuning, bounded coordinates, the idle timer
    /// and the walk state mutually exclusive, and the walk state itself
    /// consistent (cycles still to go, speed inside the drawn range).
    pub open spec fn wf(self) -> bool {
        &&& self.wander.wf()
        &&& self.cycles.wf()
        &&& self.position.in_bounds()
        &&& (self.idle_timer is Some <==> self.walk is None)
        &&& (self.walk matches Some(w) ==> {
            &&& w.progress.current < w.progress.target
            &&& w.progress.target <= self.cycles.max
            &&& self.wander.min_speed <= w.speed <= self.wander.max_speed
            &&& path_points_in_bounds(w.path)
        })
    }

    /// Law: an agent never holds an idle timer and a walk-cycle counter at
    /// the same time.
    pub proof fn lemma_state_exclusivity(self)
        requires
            self.wf(),
        ensures
            !(self.is_idle() && self.is_walking()),
            self.is_idle() <==> !self.is_walking(),
    {
    }

    /// A fresh agent: Idle with a drawn idle duration, no region yet,
    /// standing still.
    pub fn new(position: Vec2I, wander: WanderConfig, cycles: WalkCycles) -> (r: Agent)
        requires
            wander.wf(),
            cycles.wf(),
            position.in_bounds(),
        ensures
            r.wf(),
            r.is_idle(),
            !r.is_walking(),
            r.position == position,
            r.velocity == (Vec2I { x: 0, y: 0 }),
            r.region is None,
            r.wander == wander,
            r.cycles == cycles,
            idle_duration_in_range(wander, r.idle_timer->0.remaining),
    {
        let duration = sample_u64_half_open(wander.min_idle_time, wander.max_idle_time);
        Agent {
            position,
            velocity: Vec2I::zero(),
            region: None,
            wander,
            cycles,
            idle_timer: Some(IdleTimer::new(duration)),
            walk: None,
        }
    }

    /// Resolve region membership once, at spawn: the first region containing
    /// the agent's position wins. Idempotent: an agent that already has an
    /// assignment is left untouched.
    pub fn assign_region(&mut self, regions: &Vec<NavigationRegion>)
        requires
            old(self).wf(),
            forall|i: int| 0 <= i < regions@.len() ==> (#[trigger] regions@[i]).wf(),
        ensures
            final(self).wf(),
            old(self).region is Some ==> *final(self) == *old(self),
            old(self).region is None ==> {
                &&& unchanged_but_region(*old(self), *final(self))
                &&& (final(self).region matches Some(i) ==> {
                    &&& i < regions@.len()
                    &&& polygon_contains(regions@[i as int]@, old(self).position@)
                    &&& forall|j: int|
                        0 <= j < i ==> !polygon_contains(#[trigger] regions@[j]@, old(self).position@)
                })
                &&& (final(self).region is None ==> forall|j: int|
                    0 <= j < regions@.len() ==> !polygon_contains(
                        #[trigger] regions@[j]@,
                        old(self).position@,
                    ))
            },
    {
        if self.region.is_none() {
            self.region = resolve_region(self.position, regions);
        }
    }

    /// Idle phase of the tick: count the idle timer down. Walking agents
    /// are untouched.
    pub fn tick_idle_timer(&mut self, delta: u64)
        requires
            old(self).wf(),
        ensures
            final(self).wf(),
            !old(self).is_idle() ==> *final(self) == *old(self),
            old(self).is_idle() ==> {
                &&& unchanged_but_idle_timer(*old(self), *final(self))
                &&& final(self).idle_timer matches Some(t) && t.remaining == (
                if old(self).idle_timer->0.remaining >= delta {
                    old(self).idle_timer->0.remaining - delta
                } else {
                    0int
                })
            },
    {
        if let Some(t) = &self.idle_timer {
            let mut ticked = *t;
            ticked.tick(delta);
            self.idle_timer = Some(ticked);
        }
    }

    /// May the agent ask the external mesh for a path this tick? True
    /// exactly when it is Idle with an elapsed timer, has a region, and the
    /// mesh reports itself built.
    pub fn ready_for_path(&self, navmesh_built: bool) -> (r: bool)
        requires
            self.wf(),
        ensures
            r == (self.is_idle() && self.idle_timer->0.remaining == 0 && self.region is Some
                && navmesh_built),
    {
        match &self.idle_timer {
            Some(t) => t.is_finished() && self.region.is_some() && navmesh_built,
            None => false,
        }
    }

    /// Idle to Walking: install a freshly queried, non-empty path, draw the
    /// episode's cycle target from the inclusive cycle range and its speed
    /// from the half-open speed range.
    pub fn begin_walking(&mut self, waypoints: Vec<Vec2I>, destination: Vec2I)
        requires
            old(self).wf(),
            old(self).is_idle(),
            waypoints@.len() >= 1,
            forall|i: int| 0 <= i < waypoints@.len() ==> (#[trigger] waypoints@[i]).in_bounds(),
            destination.in_bounds(),
        ensures
            final(self).wf(),
            final(self).is_walking(),
            !final(self).is_idle(),
            unchanged_but_state(*old(self), *final(self)),
            final(self).walk matches Some(w) && {
                &&& w.path.waypoints@ == waypoints@
                &&& w.path.destination == destination
                &&& w.progress.current == 0
                &&& old(self).cycles.min <= w.progress.target <= old(self).cycles.max
                &&& speed_in_range(old(self).wander, w.speed)
            },
    {
        let target = sample_u32_inclusive(self.cycles.min, self.cycles.max);
        let speed = sample_u64_half_open(self.wander.min_speed, self.wander.max_speed);
        self.idle_timer = None;
        self.walk = Some(
            WalkState {
                path: NavigationPath::new(waypoints, destination),
                progress: WalkCycleProgress { current: 0, target },
                speed,
            },
        );
    }

    /// One walking-phase step of the state machine. With a waypoint ahead:
    /// advance past it once the agent is within `arrival_threshold` of it,
    /// else do nothing. With the path exhausted: count one path completion;
    /// either more cycles remain — the caller should query a new path and
    /// `install_path` it (on failure the agent holds position and this
    /// repeats next tick, the counter never regressing) — or the episode is
    /// over and the agent returns to Idle with a freshly drawn idle
    /// duration.
    pub fn waypoint_arrival_step(&mut self, arrival_threshold: i64) -> (r: ArrivalEvent)
        requires
            old(self).wf(),
            old(self).is_walking(),
            0 <= arrival_threshold <= COORD_LIMIT,
        ensures
            final(self).wf(),
            unchanged_but_state(*old(self), *final(self)),
            ({
                let w = old(self).walk->0;
                &&& (w.path.waypoints@.len() > 0 ==> {
                    if g_dist_sq(old(self).position@, w.path.waypoints@[0]@) <= arrival_threshold
                        * arrival_threshold {
                        &&& r is Advanced
                        &&& final(self).walk matches Some(w2) && w2.speed == w.speed
                            && w2.progress == w.progress && w2.path.destination
                            == w.path.destination && w2.path.waypoints@
                            == w.path.waypoints@.subrange(1, w.path.waypoints@.len() as int)
                    } else {
                        &&& r is NotArrived
                        &&& *final(self) == *old(self)
                    }
                })
                &&& (w.path.waypoints@.len() == 0 ==> match completion_outcome(w.progress) {
                    Some(q) => {
                        &&& r is NeedsPath
                        &&& final(self).walk matches Some(w2) && w2.progress == q && w2.speed
                            == w.speed && w2.path.destination == w.path.destination
                            && w2.path.waypoints@ == w.path.waypoints@
                    },
                    None => {
                        &&& r is WentIdle
                        &&& final(self).walk is None
                        &&& final(self).idle_timer matches Some(t) && idle_duration_in_range(
                            old(self).wander,
                            t.remaining,
                        )
                    },
                })
            }),
    {
        let mut w = self.walk.take().unwrap();
        match w.path.current() {
            Some(wp) => {
                proof {
                    lemma_abs_mul_bound(
                        arrival_threshold as int,
                        arrival_threshold as int,
                        COORD_LIMIT as int,
                        COORD_LIMIT as int,
                    );
                }
                let d2 = self.position.dist_sq(wp);
                if d2 <= arrival_threshold * arrival_threshold {
                    w.path.advance();
                    self.walk = Some(w);
                    ArrivalEvent::Advanced
                } else {
                    self.walk = Some(w);
                    ArrivalEvent::NotArrived
                }
            },
            None => {
                if w.progress.current + 1 < w.progress.target {
                    w.progress.current = w.progress.current + 1;
                    self.walk = Some(w);
                    ArrivalEvent::NeedsPath
                } else {
                    let duration = sample_u64_half_open(
                        self.wander.min_idle_time,
                        self.wander.max_idle_time,
                    );
                    self.idle_timer = Some(IdleTimer::new(duration));
                    ArrivalEvent::WentIdle
                }
            },
        }
    }

    /// Replace the exhausted path after a successful mid-cycle re-query;
    /// progress and speed are kept.
    pub fn install_path(&mut self, waypoints: Vec<Vec2I>, destination: Vec2I)
        requires
            old(self).wf(),
            old(self).is_walking(),
            waypoints@.len() >= 1,
            forall|i: int| 0 <= i < waypoints@.len() ==> (#[trigger] waypoints@[i]).in_bounds(),
            destination.in_bounds(),
        ensures
            final(self).wf(),
            final(self).is_walking(),
            unchanged_but_state(*old(self), *final(self)),
            final(self).walk matches Some(w2) && {
                &&& w2.progress == old(self).walk->0.progress
                &&& w2.speed == old(self).walk->0.speed
                &&& w2.path.waypoints@ == waypoints@
                &&& w2.path.destination == destination
            },
    {
        let mut w = self.walk.take().unwrap();
        w.path = NavigationPath::new(waypoints, destination);
        self.walk = Some(w);
    }
}

/// What one walking-phase step reported.
#[derive(Clone, Copy, Debug, PartialEq, Eq, Structural)]
pub enum ArrivalEvent {
    /// A waypoint lies ahead and the agent is still on its way to it.
    NotArrived,
    /// The agent reached the current waypoint and moved on to the next.
    Advanced,
    /// A path was completed and more cycles remain: the caller should query
    /// a new path and install it.
    NeedsPath,
    /// A path was completed and the episode is over: back to Idle.
    WentIdle,
}

/// Bookkeeping for one path completion: either another cycle remains (the
/// incremented progress) or the walking episode is over (`None`).
pub open spec fn completion_outcome(p: WalkCycleProgress) -> Option<WalkCycleProgress> {
    if p.current + 1 < p.target {
        Some(WalkCycleProgress { current: (p.current + 1) as u32, target: p.target })
    } else {
        None
    }
}

/// How many path completions remain until the episode ends, following
/// `completion_outcome` step by step.
pub open spec fn completions_until_idle(p: WalkCycleProgress) -> nat
    decreases p.target - p.current,
{
    match completion_outcome(p) {
        None => 1,
        Some(q) => 1 + completions_until_idle(q),
    }
}

/// Law: a walking episode with `target` cycles drawn and `current` of them
/// done performs exactly `target - current` more path completions before
/// returning to Idle, provided every mid-cycle path query succeeds. Fresh
/// from `begin_walking` (`current == 0`) that is exactly `target`.
pub proof fn lemma_cycle_termination(p: WalkCycleProgress)
    requires
        p.current < p.target,
    ensures
        completions_until_idle(p) == p.target - p.current,
    decreases p.target - p.current,
{
    if p.current + 1 < p.target {
        lemma_cycle_termination(WalkCycleProgress { current: (p.current + 1) as u32, target: p.target });
    }
}

/// The drawn speed obeys the half-open range convention.
pub open spec fn speed_in_range(wander: WanderConfig, speed: u64) -> bool {
    &&& wander.min_speed <= speed
    &&& wander.min_speed < wander.max_speed ==> speed < wander.max_speed
    &&& wander.min_speed == wander.max_speed ==> speed == wander.min_speed
}

/// The drawn idle duration obeys the half-open range convention.
pub open spec fn idle_duration_in_range(wander: WanderConfig, duration: u64) -> bool {
    &&& wander.min_idle_time <= duration
    &&& wander.min_idle_time < wander.max_idle_time ==> duration < wander.max_idle_time
    &&& wander.min_idle_time == wander.max_idle_time ==> duration == wander.min_idle_time
}

/// All fields agree except possibly `region`.
pub open spec fn unchanged_but_region(a: Agent, b: Agent) -> bool {
    &&& b.position == a.position
    &&& b.velocity == a.velocity
    &&& b.wander == a.wander
    &&& b.cycles == a.cycles
    &&& b.idle_timer == a.idle_timer
    &&& b.walk == a.walk
}

/// All fields agree except possibly `idle_timer`.
pub open spec fn unchanged_but_idle_timer(a: Agent, b: Agent) -> bool {
    &&& b.position == a.position
    &&& b.velocity == a.velocity
    &&& b.region == a.region
    &&& b.wander == a.wander
    &&& b.cycles == a.cycles
    &&& b.walk == a.walk
}

/// All fields agree except possibly the state blocks (`idle_timer`, `walk`).
pub open spec fn unchanged_but_state(a: Agent, b: Agent) -> bool {
    &&& b.position == a.position
    &&& b.velocity == a.velocity
    &&& b.region == a.region
    &&& b.wander == a.wander
    &&& b.cycles == a.cycles
}

} // verus!
