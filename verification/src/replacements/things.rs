//! Timers of the game's props ("things"), counted in milliseconds instead of ticks.

use vstd::prelude::*;

verus! {

/// How long a thing that was knocked over waits before it gets up:
/// 267 ms (8 ticks). The get-up timer is compared with this.
pub const GETUP_DELAY_MILLIS: i16 = 267;

/// Per-thing state that the game's own structure has no room for.
#[derive(Copy, Clone)]
pub struct ExtraThingState {
    /// Replaces the game's one-byte random timer, which is too small for milliseconds.
    pub rng_timer: u16,
    pub getup_timer: i16,
}

impl ExtraThingState {
    pub fn new() -> (r: Self)
        ensures
            r.rng_timer == 0,
            r.getup_timer == 0,
    {
        Self { rng_timer: 0, getup_timer: 0 }
    }

    /// Starts the random timer: between 667 ms (20 ticks) and 2766 ms,
    /// chosen by the game's random number `rng`.
    pub fn start_rng_timer(&mut self, rng: u32)
        ensures
            final(self).rng_timer == rng % 2100 + 667,
            final(self).getup_timer == old(self).getup_timer,
    {
        let timer = (rng % 2100) + 667;
        self.rng_timer = timer as u16;
    }

    /// Counts the fish's random timer down by `dt_millis` (taken as unsigned),
    /// stopping at zero; gives the value the game's own one-byte timer is set
    /// to so that its branches see whether time is left: 100 or 0.
    pub fn decrement_fish_timer(&mut self, dt_millis: i16) -> (game_timer: u8)
        ensures
            final(self).rng_timer == if old(self).rng_timer >= (dt_millis as u16) {
                (old(self).rng_timer - (dt_millis as u16)) as u16
            } else {
                0u16
            },
            final(self).getup_timer == old(self).getup_timer,
            game_timer == if final(self).rng_timer > 0 {
                100u8
            } else {
                0u8
            },
    {
        self.rng_timer = self.rng_timer.saturating_sub(dt_millis as u16);
        if self.rng_timer > 0 {
            100
        } else {
            0
        }
    }

    /// Advances the get-up timer by `dt_millis`.
    pub fn advance_getup_timer(&mut self, dt_millis: i16)
        requires
            i16::MIN <= old(self).getup_timer + dt_millis <= i16::MAX,
        ensures
            final(self).getup_timer == old(self).getup_timer + dt_millis,
            final(self).rng_timer == old(self).rng_timer,
    {
        self.getup_timer = self.getup_timer + dt_millis;
    }
}

/// A flee timer given in ticks, converted to milliseconds and truncated to 16 bits.
pub fn flee_timer_millis(ticks: u16) -> (r: u16)
    ensures
        r == (ticks * 1000 / 30) % 0x10000,
{
    let t = ((ticks as u64) * 1000) / 30;
    (t % 0x10000) as u16
}

/// A bird's random timer: 167 ms plus a value below 500 ms that mixes the
/// game's random number with the thing's index, so that birds spread out.
pub fn bird_timer(mono_ctrl_idx: u32, rng: u32) -> (r: u16)
    requires
        rng + mono_ctrl_idx * 33 <= u32::MAX,
    ensures
        r == (rng + mono_ctrl_idx * 33) % 500 + 167,
        167 <= r < 667,
{
    let mut timer = rng;
    timer += mono_ctrl_idx * 33;
    timer %= 500;
    timer += 167;
    timer as u16
}

/// An animal's full walk timer: between 4000 ms and 12566 ms, from the
/// game's random number and the thing's index.
pub fn animal_full_walk_timer(rng: u32, mono_ctrl_idx: u16) -> (r: u16)
    requires
        (rng + mono_ctrl_idx) * 0x23a <= u32::MAX,
    ensures
        r == (rng + mono_ctrl_idx) * 0x23a % 8567 + 4000,
        4000 <= r < 12567,
{
    let mut timer = rng;
    timer += mono_ctrl_idx as u32;
    timer *= 0x23a;
    timer %= 8567;
    timer += 4000;
    timer as u16
}

/// An animal's partial walk timer: `base` plus the random number reduced
/// below `range`, cut to its low 16 bits.
pub fn animal_partial_walk_timer(range: u32, base: u32, rng: u32) -> (r: u16)
    requires
        range > 0,
        rng % range + base <= u32::MAX,
    ensures
        r == (rng % range + base) % 0x10000,
        base + range - 1 <= u16::MAX ==> base <= r < base + range,
{
    let mut timer = rng;
    timer %= range;
    timer += base;
    (timer % 0x10000) as u16
}

/// The timer for another hopping thing: between 667 ms and 9166 ms.
pub fn other_hop_timer(rng: u32) -> (r: u32)
    ensures
        r == rng % 8500 + 667,
        667 <= r < 9167,
{
    let mut timer = rng;
    timer %= 8500;
    timer += 667;
    timer
}

/// The delay that desynchronises a balloon: below two seconds.
pub fn balloon_desync_timer(rng: u32) -> (r: u32)
    ensures
        r == rng % 2000,
        r < 2000,
{
    rng % 2000
}

} // verus!
