//! Passage plans: waypoints, legs, and a cursor over them.
use vstd::prelude::*;

use crate::error::{KernelError, NavigationError};
use crate::position::Position;

verus! {

/// Maximum waypoints in a route.
pub const MAX_WAYPOINTS: usize = 128;

/// Largest leg index a cursor can hold: the last leg of a full route.
pub const MAX_LEG_INDEX: u16 = 126;

/// How the legs of a route are sailed.
#[derive(Clone, Copy, Debug, PartialEq, Eq, Hash, Structural)]
pub enum LegKind {
    /// Rhumb lines: one course per leg.
    RhumbLine,
    /// Great circles: the course changes along the leg.
    GreatCircle,
}

/// A route: two to [`MAX_WAYPOINTS`] waypoints sailed leg by leg.
#[derive(Debug)]
pub struct Route {
    waypoints: Vec<Position>,
    kind: LegKind,
}

impl View for Route {
    type V = (Seq<Position>, LegKind);

    closed spec fn view(&self) -> (Seq<Position>, LegKind) {
        (self.waypoints@, self.kind)
    }
}

/// Position of a leg: leg `i` runs from waypoint `i` to waypoint `i + 1`.
#[derive(Clone, Copy, Debug, PartialEq, Eq, Hash, Structural)]
pub struct LegCursor {
    index: u16,
}

impl View for LegCursor {
    type V = int;

    closed spec fn view(&self) -> int {
        self.index as int
    }
}

impl LegCursor {
    #[verifier::type_invariant]
    closed spec fn in_range(&self) -> bool {
        self.index <= MAX_LEG_INDEX
    }

    /// Cursor on leg `index`.
    ///
    /// # Errors
    ///
    /// [`KernelError::OutOfRange`] beyond the last leg of a full route.
    pub fn try_from(index: u16) -> (r: Result<LegCursor, NavigationError>)
        ensures
            match r {
                Ok(c) => index <= MAX_LEG_INDEX && c@ == index,
                Err(e) => index > MAX_LEG_INDEX && e == NavigationError::Kernel(
                    KernelError::OutOfRange {
                        parameter: "active leg",
                        value: index as i64,
                        min: 0,
                        max: MAX_LEG_INDEX as i64,
                    },
                ),
            },
    {
        if index > MAX_LEG_INDEX {
            Err(
                NavigationError::Kernel(
                    KernelError::OutOfRange {
                        parameter: "active leg",
                        value: index as i64,
                        min: 0,
                        max: MAX_LEG_INDEX as i64,
                    },
                ),
            )
        } else {
            Ok(LegCursor { index })
        }
    }

    /// Leg index.
    pub fn index(&self) -> (r: u16)
        ensures
            r == self@,
            r <= MAX_LEG_INDEX,
    {
        proof {
            use_type_invariant(self);
        }
        self.index
    }

    /// Whether this is the last leg of `route` (or beyond it).
    pub fn is_last(&self, route: &Route) -> (r: bool)
        ensures
            r == (self@ + 1 >= route@.0.len() - 1),
            2 <= route@.0.len() <= MAX_WAYPOINTS,
    {
        proof {
            use_type_invariant(self);
        }
        self.index as usize + 1 >= route.leg_count()
    }

    /// The next leg of `route`; `None` on the last.
    pub fn advance(&self, route: &Route) -> (r: Option<LegCursor>)
        ensures
            match r {
                Some(c) => self@ + 1 < route@.0.len() - 1 && c@ == self@ + 1,
                None => self@ + 1 >= route@.0.len() - 1,
            },
    {
        proof {
            use_type_invariant(self);
        }
        if self.is_last(route) {
            None
        } else {
            Some(LegCursor { index: self.index + 1 })
        }
    }
}

impl Route {
    #[verifier::type_invariant]
    closed spec fn bounded(&self) -> bool {
        2 <= self.waypoints@.len() <= MAX_WAYPOINTS
    }

    /// Route through `waypoints`, sailed as `kind`.
    ///
    /// # Errors
    ///
    /// - [`KernelError::InsufficientData`] for fewer than two waypoints.
    /// - [`KernelError::CapacityExceeded`] beyond [`MAX_WAYPOINTS`].
    pub fn new(waypoints: &[Position], kind: LegKind) -> (r: Result<Route, NavigationError>)
        ensures
            match r {
                Ok(route) => route@ == (waypoints@, kind),
                Err(e) => (waypoints@.len() < 2 && e == NavigationError::Kernel(
                    KernelError::InsufficientData {
                        found: waypoints@.len() as usize,
                        required: 2,
                        context: "a route",
                    },
                )) || (waypoints@.len() > MAX_WAYPOINTS && e == NavigationError::Kernel(
                    KernelError::CapacityExceeded {
                        context: "a route",
                        needed: waypoints@.len() as usize,
                        capacity: MAX_WAYPOINTS,
                    },
                )),
            },
    {
        if waypoints.len() < 2 {
            return Err(
                NavigationError::Kernel(
                    KernelError::InsufficientData {
                        found: waypoints.len(),
                        required: 2,
                        context: "a route",
                    },
                ),
            );
        }
        if waypoints.len() > MAX_WAYPOINTS {
            return Err(
                NavigationError::Kernel(
                    KernelError::CapacityExceeded {
                        context: "a route",
                        needed: waypoints.len(),
                        capacity: MAX_WAYPOINTS,
                    },
                ),
            );
        }
        let mut copy: Vec<Position> = Vec::new();
        let mut i: usize = 0;
        while i < waypoints.len()
            invariant
                i <= waypoints@.len(),
                copy@ == waypoints@.subrange(0, i as int),
            decreases waypoints@.len() - i,
        {
            copy.push(waypoints[i]);
            i = i + 1;
        }
        assert(copy@ =~= waypoints@);
        Ok(Route { waypoints: copy, kind })
    }

    /// Waypoints.
    pub fn waypoints(&self) -> (r: &[Position])
        ensures
            r@ == self@.0,
            2 <= r@.len() <= MAX_WAYPOINTS,
    {
        proof {
            use_type_invariant(self);
        }
        self.waypoints.as_slice()
    }

    /// How the legs are sailed.
    pub fn kind(&self) -> (r: LegKind)
        ensures
            r == self@.1,
    {
        self.kind
    }

    /// Number of legs: one fewer than waypoints, at least one.
    pub fn leg_count(&self) -> (r: usize)
        ensures
            r == self@.0.len() - 1,
            1 <= r < MAX_WAYPOINTS,
    {
        proof {
            use_type_invariant(self);
        }
        self.waypoints.len() - 1
    }

    /// Cursor on the first leg.
    pub fn first_leg(&self) -> (r: LegCursor)
        ensures
            r@ == 0,
    {
        LegCursor { index: 0 }
    }

    /// Cursor on leg `index`.
    ///
    /// # Errors
    ///
    /// [`KernelError::OutOfRange`] if the route has no such leg.
    pub fn leg(&self, index: u16) -> (r: Result<LegCursor, NavigationError>)
        ensures
            match r {
                Ok(c) => index < self@.0.len() - 1 && c@ == index,
                Err(e) => index >= self@.0.len() - 1 && e == NavigationError::Kernel(
                    KernelError::OutOfRange {
                        parameter: "active leg",
                        value: index as i64,
                        min: 0,
                        max: (self@.0.len() - 2) as i64,
                    },
                ),
            },
    {
        let legs = self.leg_count();
        if index as usize >= legs {
            return Err(
                NavigationError::Kernel(
                    KernelError::OutOfRange {
                        parameter: "active leg",
                        value: index as i64,
                        min: 0,
                        max: (legs - 1) as i64,
                    },
                ),
            );
        }
        Ok(LegCursor { index })
    }

    /// Start and end of the leg under `active`.
    ///
    /// # Errors
    ///
    /// [`KernelError::OutOfRange`] for a cursor issued by a longer route.
    pub fn leg_ends(&self, active: LegCursor) -> (r: Result<(Position, Position), NavigationError>)
        ensures
            match r {
                Ok((from, to)) => active@ < self@.0.len() - 1 && from == self@.0[active@]
                    && to == self@.0[active@ + 1],
                Err(e) => active@ >= self@.0.len() - 1 && e == NavigationError::Kernel(
                    KernelError::OutOfRange {
                        parameter: "active leg",
                        value: active@ as i64,
                        min: 0,
                        max: (self@.0.len() - 2) as i64,
                    },
                ),
            },
    {
        let index = active.index() as usize;
        let legs = self.leg_count();
        if index >= legs {
            return Err(
                NavigationError::Kernel(
                    KernelError::OutOfRange {
                        parameter: "active leg",
                        value: index as i64,
                        min: 0,
                        max: (legs - 1) as i64,
                    },
                ),
            );
        }
        Ok((self.waypoints[index], self.waypoints[index + 1]))
    }
}

} // verus!
