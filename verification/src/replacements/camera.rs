//! Camera timings of the credits sequence, in milliseconds.

use vstd::prelude::*;

verus! {

/// The credits timer at the first start of the credits camera: 30 seconds.
pub const CREDITS_TIMER_START_A: i32 = 30_000;

/// The credits timer at the second start of the credits camera: 214.8 seconds.
pub const CREDITS_TIMER_START_B: i32 = 214_800;

} // verus!
