//! Sound effects whose intervals were counted in ticks.

use vstd::prelude::*;

use super::values::div_toward_zero;

verus! {

/// What the "NPC approaching" sound does in one update.
#[derive(Debug, Copy, Clone, PartialEq, Eq)]
pub struct ApproachSound {
    /// The katamari's timer after the update, in milliseconds.
    pub timer: i16,
    /// Whether the sound is played in this update.
    pub play: bool,
}

/// The timer arithmetic stays within `i16`.
pub open spec fn approach_fits(timer: i16, interval_ticks: i16, dt_millis: i16) -> bool {
    &&& i16::MIN <= timer - dt_millis <= i16::MAX
    &&& timer - dt_millis < 0 ==> i16::MIN <= interval_ticks * 1000 <= i16::MAX
}

/// Counts the timer down by `dt_millis`; when it drops below zero it restarts
/// at the interval (given in ticks) in milliseconds, and the sound plays if
/// sound effects are allowed and the game's flag at 0x0ff0f6 is clear.
pub fn npc_approaching(
    timer: i16,
    interval_ticks: i16,
    dt_millis: i16,
    allow_sfx: bool,
    flag_x0ff0f6: u8,
) -> (r: ApproachSound)
    requires
        approach_fits(timer, interval_ticks, dt_millis),
    ensures
        timer - dt_millis >= 0 ==> r == (ApproachSound { timer: (timer - dt_millis) as i16, play: false }),
        timer - dt_millis < 0 ==> r == (ApproachSound {
            timer: div_toward_zero(interval_ticks * 1000, 30) as i16,
            play: allow_sfx && flag_x0ff0f6 == 0,
        }),
{
    let t = timer - dt_millis;
    if t < 0 {
        let restart = interval_ticks * 1000 / 30;
        ApproachSound { timer: restart, play: allow_sfx && flag_x0ff0f6 == 0 }
    } else {
        ApproachSound { timer: t, play: false }
    }
}

/// Nanoseconds within which a second gunshot is too soon.
pub const GUNSHOT_COOLDOWN_NANOS: u128 = 200_000_000;

/// The gunshot sound's global cooldown. Given the time since the last shot
/// that played (`None` when none has), gives the value the calling code
/// compares with 6 (4: skip the sound, 7: play it) and whether the time of
/// this shot is to be recorded.
pub fn gunshot_gate(since_last_nanos: Option<u128>) -> (r: (u32, bool))
    ensures
        r == (match since_last_nanos {
            Some(t) => if t < GUNSHOT_COOLDOWN_NANOS {
                (4u32, false)
            } else {
                (7u32, true)
            },
            None => (7u32, true),
        }),
{
    let too_soon = match since_last_nanos {
        Some(t) => t < GUNSHOT_COOLDOWN_NANOS,
        None => false,
    };
    if too_soon {
        (4, false)
    } else {
        (7, true)
    }
}

} // verus!
