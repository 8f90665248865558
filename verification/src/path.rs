//! Waypoint paths handed back by the external navigation-mesh service.
//!
//! Waypoints are consumed strictly in order, front first; there is no
//! skipping and no look-ahead. Advancing strictly shrinks the waypoint list
//! until it is empty, and advancing an exhausted path changes nothing.

use vstd::prelude::*;
use crate::vec2::Vec2I;

verus! {

/// A path an agent is currently following.
pub struct NavigationPath {
    /// Waypoints still to visit; the first is the next target.
    pub waypoints: Vec<Vec2I>,
    /// Final destination, kept for diagnostics and display.
    pub destination: Vec2I,
}

impl NavigationPath {
    pub fn new(waypoints: Vec<Vec2I>, destination: Vec2I) -> (r: Self)
        ensures
            r.waypoints@ == waypoints@,
            r.destination == destination,
    {
        NavigationPath { waypoints, destination }
    }

    /// The next unvisited waypoint, or `None` once the path is exhausted.
    pub fn current(&self) -> (r: Option<Vec2I>)
        ensures
            r == if self.waypoints@.len() == 0 {
                Option::<Vec2I>::None
            } else {
                Option::Some(self.waypoints@[0])
            },
    {
        if self.waypoints.len() == 0 {
            None
        } else {
            Some(self.waypoints[0])
        }
    }

    /// Pop the front waypoint; returns true exactly when the path is now
    /// exhausted. On a nonempty path the waypoint list strictly shrinks by
    /// one; on an exhausted path this is a no-op that returns true.
    pub fn advance(&mut self) -> (done: bool)
        ensures
            old(self).waypoints@.len() == 0 ==> final(self).waypoints@ == old(self).waypoints@
                && done,
            old(self).waypoints@.len() > 0 ==> final(self).waypoints@ == old(
                self,
            ).waypoints@.subrange(1, old(self).waypoints@.len() as int) && done == (old(
                self,
            ).waypoints@.len() == 1),
            final(self).waypoints@.len() == if old(self).waypoints@.len() == 0 {
                0int
            } else {
                old(self).waypoints@.len() - 1
            },
            final(self).destination == old(self).destination,
            done == (final(self).waypoints@.len() == 0),
    {
        if self.waypoints.len() > 0 {
            self.waypoints.remove(0);
        }
        self.waypoints.len() == 0
    }
}

} // verus!
