//! The integer bookkeeping of the katamari's slope and climbing routines:
//! millisecond slope timers, the climb counter, and whether the katamari
//! follows its velocity in a frame.

use vstd::prelude::*;

verus! {

/// `slope_state` while the katamari rolls uphill.
pub const SLOPE_UPHILL: u8 = 1;

/// `slope_state` while the katamari rolls downhill.
pub const SLOPE_DOWNHILL: u8 = 2;

/// `t + dt` in `u16`, stopping at `u16::MAX`.
pub open spec fn saturating_u16(t: u16, dt: u16) -> u16 {
    if t + dt > u16::MAX {
        u16::MAX
    } else {
        (t + dt) as u16
    }
}

/// The slope counters of a katamari, in milliseconds.
#[derive(Debug, Copy, Clone, PartialEq, Eq)]
pub struct SlopeTimers {
    pub time_spent_going_uphill: u16,
    pub time_spent_going_downhill: u16,
    pub slope_state: u8,
}

impl SlopeTimers {
    /// One update spent rolling uphill, `dt_millis` long: the downhill time
    /// restarts, the uphill time grows (saturating), and the state is uphill.
    /// The update's length is taken as its low 16 bits, unsigned.
    pub fn go_uphill(&mut self, dt_millis: i16)
        ensures
            final(self).time_spent_going_downhill == 0,
            final(self).time_spent_going_uphill == saturating_u16(
                old(self).time_spent_going_uphill,
                dt_millis as u16,
            ),
            final(self).slope_state == SLOPE_UPHILL,
    {
        self.time_spent_going_downhill = 0;
        self.time_spent_going_uphill = self.time_spent_going_uphill.saturating_add(dt_millis as u16);
        self.slope_state = SLOPE_UPHILL;
    }

    /// One update spent rolling downhill: the mirror image of `go_uphill`.
    pub fn go_downhill(&mut self, dt_millis: i16)
        ensures
            final(self).time_spent_going_uphill == 0,
            final(self).time_spent_going_downhill == saturating_u16(
                old(self).time_spent_going_downhill,
                dt_millis as u16,
            ),
            final(self).slope_state == SLOPE_DOWNHILL,
    {
        self.time_spent_going_uphill = 0;
        self.time_spent_going_downhill = self.time_spent_going_downhill.saturating_add(
            dt_millis as u16,
        );
        self.slope_state = SLOPE_DOWNHILL;
    }
}

/// Whether a katamari that is not standing on a prop moves along its velocity
/// this frame, and its climb timer afterwards. Outside multiplayer it always
/// moves. In multiplayer a running climb timer counts down by one and lets it
/// move; with the timer at zero it stays put only when the prince's `x17` flag
/// is set and the katamari is on the ground.
pub fn follows_velocity(multiplayer: bool, prince_x17: bool, airborne: bool, climb_timer: i16) -> (r: (bool, i16))
    requires
        multiplayer ==> climb_timer != i16::MIN,
    ensures
        r.0 == !(multiplayer && prince_x17 && !airborne && climb_timer == 0),
        r.1 == (if multiplayer && climb_timer != 0 {
            climb_timer - 1
        } else {
            climb_timer as int
        }),
{
    let mut moves = true;
    let mut timer: i16 = climb_timer;
    if multiplayer {
        moves = true;
        if prince_x17 {
            moves = true;
            if !airborne {
                moves = false;
            }
        }
        if timer != 0 {
            moves = true;
            timer -= 1;
        }
    }
    (moves, timer)
}

/// The climb counters of a katamari.
#[derive(Debug, Copy, Clone, PartialEq, Eq)]
pub struct ClimbCounters {
    pub climb_timer: i16,
    pub another_climb_timer: i16,
    pub climb_height_reached: bool,
}

/// Whether a climb update with these counters ends the climb: always before
/// the climb height is reached, and after it when the height limit was hit.
pub open spec fn climb_ends(c: ClimbCounters, height_limit_hit: bool) -> bool {
    !c.climb_height_reached || height_limit_hit
}

impl ClimbCounters {
    /// One climb update. Where the climb ends, the climb timer counts up by
    /// one, the height counts as reached, and the result says whether the
    /// game's climb-termination routine runs: when the new count is still under
    /// `climb_limit`. Otherwise the second climb timer counts up by one and
    /// nothing runs. `height_limit_hit` is whether the katamari, without the
    /// climb flag, stands at least its measured height above the climb base.
    pub fn update(&mut self, height_limit_hit: bool, climb_limit: i32) -> (terminate: bool)
        requires
            climb_ends(*old(self), height_limit_hit) ==> old(self).climb_timer < i16::MAX,
            !climb_ends(*old(self), height_limit_hit) ==> old(self).another_climb_timer < i16::MAX,
        ensures
            climb_ends(*old(self), height_limit_hit) ==> {
                &&& final(self).climb_timer == old(self).climb_timer + 1
                &&& final(self).climb_height_reached
                &&& final(self).another_climb_timer == old(self).another_climb_timer
                &&& terminate == (old(self).climb_timer + 1 < climb_limit)
            },
            !climb_ends(*old(self), height_limit_hit) ==> {
                &&& final(self).another_climb_timer == old(self).another_climb_timer + 1
                &&& final(self).climb_timer == old(self).climb_timer
                &&& final(self).climb_height_reached == old(self).climb_height_reached
                &&& !terminate
            },
    {
        if !self.climb_height_reached || height_limit_hit {
            let t: i16 = self.climb_timer + 1;
            self.climb_timer = t;
            self.climb_height_reached = true;
            (t as i32) < climb_limit
        } else {
            self.another_climb_timer = self.another_climb_timer + 1;
            false
        }
    }
}

} // verus!
