use wander::agent::{Agent, ArrivalEvent, WalkCycles, WanderConfig};
use wander::steering::{apply_movement, ARRIVAL_THRESHOLD, SEPARATION_RADIUS, SEPARATION_STRENGTH};
use wander::region::NavigationRegion;
use wander::vec2::Vec2I;

fn fixed_config() -> WanderConfig {
    WanderConfig { min_idle_time: 1, max_idle_time: 1, min_speed: 5, max_speed: 5 }
}

fn one_cycle() -> WalkCycles {
    WalkCycles { min: 1, max: 1 }
}

fn exclusive(a: &Agent) -> bool {
    !(a.idle_timer.is_some() && a.walk.is_some()) && (a.idle_timer.is_some() || a.walk.is_some())
}

#[test]
fn new_agent_is_idle_without_region() {
    let a = Agent::new(Vec2I::new(3, 4), fixed_config(), one_cycle());
    assert!(a.idle_timer.is_some());
    assert!(a.walk.is_none());
    assert!(a.region.is_none());
    assert_eq!(a.velocity, Vec2I::new(0, 0));
    assert_eq!(a.idle_timer.unwrap().remaining, 1);
}

#[test]
fn idle_timer_saturates_at_zero() {
    let mut a = Agent::new(
        Vec2I::new(0, 0),
        WanderConfig { min_idle_time: 5, max_idle_time: 5, min_speed: 1, max_speed: 1 },
        one_cycle(),
    );
    a.tick_idle_timer(3);
    assert_eq!(a.idle_timer.unwrap().remaining, 2);
    a.tick_idle_timer(10);
    assert_eq!(a.idle_timer.unwrap().remaining, 0);
}

#[test]
fn assign_region_is_idempotent_first_match() {
    let regions = vec![
        NavigationRegion::new(vec![
            Vec2I::new(0, 0),
            Vec2I::new(10, 0),
            Vec2I::new(10, 10),
            Vec2I::new(0, 10),
        ]),
        NavigationRegion::new(vec![
            Vec2I::new(5, 0),
            Vec2I::new(20, 0),
            Vec2I::new(20, 10),
            Vec2I::new(5, 10),
        ]),
    ];
    let mut a = Agent::new(Vec2I::new(7, 5), fixed_config(), one_cycle());
    a.assign_region(&regions);
    assert_eq!(a.region, Some(0));
    // A second pass never reassigns, even where a different region matches.
    a.position = Vec2I::new(15, 5);
    a.assign_region(&regions);
    assert_eq!(a.region, Some(0));

    let mut stranded = Agent::new(Vec2I::new(50, 50), fixed_config(), one_cycle());
    stranded.assign_region(&regions);
    assert_eq!(stranded.region, None);
}

#[test]
fn ready_for_path_needs_timer_region_and_mesh() {
    let regions = vec![NavigationRegion::new(vec![
        Vec2I::new(0, 0),
        Vec2I::new(10, 0),
        Vec2I::new(10, 10),
        Vec2I::new(0, 10),
    ])];
    let mut a = Agent::new(Vec2I::new(5, 5), fixed_config(), one_cycle());
    assert!(!a.ready_for_path(true), "timer not elapsed yet");
    a.tick_idle_timer(1);
    assert!(!a.ready_for_path(true), "no region assigned yet");
    a.assign_region(&regions);
    assert!(!a.ready_for_path(false), "navmesh not built yet");
    assert!(a.ready_for_path(true));
}

/// With idle range [1,1] and exactly one walk cycle, the agent cycles
/// deterministically: one time unit idle, one path traversal, back to idle.
#[test]
fn deterministic_wander_cycle() {
    let regions = vec![NavigationRegion::new(vec![
        Vec2I::new(0, 0),
        Vec2I::new(100, 0),
        Vec2I::new(100, 100),
        Vec2I::new(0, 100),
    ])];
    let mut a = Agent::new(Vec2I::new(50, 50), fixed_config(), one_cycle());
    a.assign_region(&regions);
    let mut transitions = 0;
    for _round in 0..3 {
        // Idle for exactly one tick of one time unit.
        assert!(a.idle_timer.is_some());
        assert!(exclusive(&a));
        assert!(!a.ready_for_path(true));
        a.tick_idle_timer(1);
        assert!(a.ready_for_path(true));
        // The external mesh answers with a straight-line path.
        let target = Vec2I::new(60, 60);
        a.begin_walking(vec![target], target);
        transitions += 1;
        assert!(a.walk.is_some());
        assert!(exclusive(&a));
        let w = a.walk.as_ref().unwrap();
        assert_eq!(w.progress.current, 0);
        assert_eq!(w.progress.target, 1);
        assert_eq!(w.speed, 5);
        // Walk to the waypoint, arrive, finish the single cycle.
        a.position = target;
        assert_eq!(a.waypoint_arrival_step(2), ArrivalEvent::Advanced);
        assert!(exclusive(&a));
        assert_eq!(a.waypoint_arrival_step(2), ArrivalEvent::WentIdle);
        assert!(exclusive(&a));
        assert_eq!(a.idle_timer.unwrap().remaining, 1);
    }
    assert_eq!(transitions, 3);
}

/// With target = 3 cycles, exactly three path completions happen before the
/// agent returns to idle, and a failed re-query never regresses the counter.
#[test]
fn three_cycles_then_idle() {
    let mut a = Agent::new(
        Vec2I::new(0, 0),
        fixed_config(),
        WalkCycles { min: 3, max: 3 },
    );
    let wp = Vec2I::new(1, 0);
    a.begin_walking(vec![wp], wp);
    assert_eq!(a.walk.as_ref().unwrap().progress.target, 3);
    let mut completions = 0;
    // First completion: path exhausted after arrival.
    a.position = wp;
    assert_eq!(a.waypoint_arrival_step(2), ArrivalEvent::Advanced);
    assert_eq!(a.waypoint_arrival_step(2), ArrivalEvent::NeedsPath);
    completions += 1;
    assert_eq!(a.walk.as_ref().unwrap().progress.current, 1);
    // The re-query fails this tick: the agent holds, the counter stands.
    assert_eq!(a.walk.as_ref().unwrap().progress.current, 1);
    // Next tick the query succeeds.
    a.install_path(vec![wp], wp);
    assert_eq!(a.waypoint_arrival_step(2), ArrivalEvent::Advanced);
    assert_eq!(a.waypoint_arrival_step(2), ArrivalEvent::NeedsPath);
    completions += 1;
    assert_eq!(a.walk.as_ref().unwrap().progress.current, 2);
    a.install_path(vec![wp], wp);
    assert_eq!(a.waypoint_arrival_step(2), ArrivalEvent::Advanced);
    assert_eq!(a.waypoint_arrival_step(2), ArrivalEvent::WentIdle);
    completions += 1;
    assert_eq!(completions, 3);
    assert!(a.idle_timer.is_some());
    assert!(a.walk.is_none());
}

#[test]
fn not_arrived_outside_threshold() {
    let mut a = Agent::new(Vec2I::new(0, 0), fixed_config(), one_cycle());
    a.begin_walking(vec![Vec2I::new(10, 0)], Vec2I::new(10, 0));
    assert_eq!(a.waypoint_arrival_step(2), ArrivalEvent::NotArrived);
    assert_eq!(a.walk.as_ref().unwrap().path.waypoints.len(), 1);
    // Just inside the threshold counts as arrived.
    a.position = Vec2I::new(8, 0);
    assert_eq!(a.waypoint_arrival_step(2), ArrivalEvent::Advanced);
    assert_eq!(a.walk.as_ref().unwrap().path.waypoints.len(), 0);
}

/// In milli-units: agent heading for waypoints [(5,0), (5,5)] with arrival
/// threshold 2; once its position reaches (4.5, 0) the next walking step
/// advances, and the current waypoint becomes (5, 5).
#[test]
fn scenario_waypoint_advance() {
    let mut a = Agent::new(Vec2I::new(0, 0), fixed_config(), one_cycle());
    let wps = vec![Vec2I::new(5000, 0), Vec2I::new(5000, 5000)];
    a.begin_walking(wps, Vec2I::new(5000, 5000));
    a.position = Vec2I::new(4500, 0);
    assert_eq!(a.waypoint_arrival_step(2000), ArrivalEvent::Advanced);
    let current = a.walk.as_ref().unwrap().path.current();
    assert_eq!(current, Some(Vec2I::new(5000, 5000)));
}

#[test]
fn begin_walking_draws_from_configured_ranges() {
    for _ in 0..50 {
        let mut a = Agent::new(
            Vec2I::new(0, 0),
            WanderConfig { min_idle_time: 1, max_idle_time: 4, min_speed: 5, max_speed: 10 },
            WalkCycles { min: 2, max: 6 },
        );
        let t = a.idle_timer.unwrap().remaining;
        assert!(1 <= t && t < 4);
        a.begin_walking(vec![Vec2I::new(1, 1)], Vec2I::new(1, 1));
        let w = a.walk.as_ref().unwrap();
        assert!(2 <= w.progress.target && w.progress.target <= 6);
        assert!(5 <= w.speed && w.speed < 10);
    }
}

/// A long randomized run through the full tick pipeline never sees an agent
/// holding both state blocks, and idle agents never drift.
#[test]
fn long_run_preserves_state_exclusivity() {
    let regions = vec![NavigationRegion::new(vec![
        Vec2I::new(0, 0),
        Vec2I::new(500, 0),
        Vec2I::new(500, 500),
        Vec2I::new(0, 500),
    ])];
    let cfg = WanderConfig { min_idle_time: 1, max_idle_time: 3, min_speed: 3, max_speed: 9 };
    let mut agents: Vec<Agent> = vec![
        Agent::new(Vec2I::new(100, 100), cfg, WalkCycles { min: 1, max: 4 }),
        Agent::new(Vec2I::new(300, 300), cfg, WalkCycles { min: 1, max: 4 }),
    ];
    for a in agents.iter_mut() {
        a.assign_region(&regions);
        assert!(a.region.is_some());
    }
    for _tick in 0..500 {
        for i in 0..agents.len() {
            let a = &mut agents[i];
            a.tick_idle_timer(1);
            if a.ready_for_path(true) {
                let target = regions[a.region.unwrap()].random_point(5);
                a.begin_walking(vec![target], target);
            } else if a.walk.is_some() {
                if a.waypoint_arrival_step(ARRIVAL_THRESHOLD) == ArrivalEvent::NeedsPath {
                    let target = regions[a.region.unwrap()].random_point(5);
                    a.install_path(vec![target], target);
                }
            }
            assert!(exclusive(a));
        }
        let positions: Vec<Vec2I> = agents.iter().map(|a| a.position).collect();
        for i in 0..agents.len() {
            let others: Vec<Vec2I> = positions
                .iter()
                .enumerate()
                .filter(|&(j, _)| j != i)
                .map(|(_, p)| *p)
                .collect();
            let a = &mut agents[i];
            apply_movement(a, &others, None, SEPARATION_RADIUS, SEPARATION_STRENGTH);
            if a.idle_timer.is_some() {
                assert_eq!((a.velocity.x, a.velocity.y), (0, 0));
            }
            a.position = Vec2I::new(a.position.x + a.velocity.x, a.position.y + a.velocity.y);
            assert!(a.position.x.abs() <= 1_000_000 && a.position.y.abs() <= 1_000_000);
        }
    }
}

#[test]
fn speed_resampled_only_per_episode() {
    let mut a = Agent::new(Vec2I::new(0, 0), fixed_config(), WalkCycles { min: 2, max: 2 });
    let wp = Vec2I::new(1, 0);
    a.begin_walking(vec![wp], wp);
    let speed_before = a.walk.as_ref().unwrap().speed;
    a.position = wp;
    a.waypoint_arrival_step(2);
    assert_eq!(a.waypoint_arrival_step(2), ArrivalEvent::NeedsPath);
    a.install_path(vec![Vec2I::new(2, 0)], Vec2I::new(2, 0));
    // Mid-episode re-pathing keeps the episode's drawn speed.
    assert_eq!(a.walk.as_ref().unwrap().speed, speed_before);
}
