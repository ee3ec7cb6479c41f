//! The dash ("spin dash") state machine of the katamari, timed in milliseconds.

use vstd::prelude::*;

use super::values::{div_toward_zero, ticks_to_millis};

verus! {

/// The dash's state as the katamari and prince hold it.
#[derive(Debug, Copy, Clone, PartialEq, Eq)]
pub struct DashState {
    /// 0: charging, 1: charged and spinning, 2: winding down, 3: over;
    /// other values are left alone.
    pub state: u8,
    /// Milliseconds spent charging (state 0) or left to wind down (state 2).
    pub timer: i16,
    /// The prince's "dash active" flag.
    pub active: bool,
}

/// What the state machine reads besides the dash's own state.
#[derive(Debug, Copy, Clone, PartialEq, Eq)]
pub struct DashInputs {
    /// The katamari touched water.
    pub hit_water: bool,
    /// First byte of the katamari's flag word at 0xa7 (non-zero ends a charged dash).
    pub flag_xa7: u8,
    /// The prince is spinning in place.
    pub stationary_spin: bool,
    /// Length of this update in milliseconds.
    pub dt_millis: i16,
}

/// The timer arithmetic of one step stays within `i16`.
pub open spec fn dash_step_fits(d: DashState, inp: DashInputs) -> bool {
    &&& (d.state == 0 && (!inp.hit_water || d.timer != 0)) ==> i16::MIN <= d.timer + inp.dt_millis
        <= i16::MAX
    &&& d.state == 2 ==> i16::MIN <= d.timer - inp.dt_millis <= i16::MAX
}

/// One update of the dash.
pub open spec fn dash_step(d: DashState, inp: DashInputs) -> DashState {
    if d.state == 0 {
        if !inp.hit_water || d.timer != 0 {
            let timer = (d.timer + inp.dt_millis) as i16;
            if inp.hit_water {
                DashState { state: 2, timer: 333, active: true }
            } else if timer >= 500 {
                DashState { state: 1, timer, active: true }
            } else {
                DashState { state: 0, timer, active: true }
            }
        } else {
            DashState { state: 3, ..d }
        }
    } else if d.state == 1 {
        if inp.hit_water {
            DashState { state: 2, timer: 333, active: true }
        } else if inp.flag_xa7 != 0 || !inp.stationary_spin {
            DashState { state: 2, timer: 500, active: true }
        } else {
            DashState { active: true, ..d }
        }
    } else if d.state == 2 {
        let timer = (d.timer - inp.dt_millis) as i16;
        DashState { state: if timer <= 0 { 3 } else { 2 }, timer, active: false }
    } else if d.state == 3 {
        DashState { active: false, ..d }
    } else {
        d
    }
}

/// Advances the dash by one update.
pub fn dash_state_machine(d: &mut DashState, inp: DashInputs)
    requires
        dash_step_fits(*old(d), inp),
    ensures
        *final(d) == dash_step(*old(d), inp),
{
    match d.state {
        0 => {
            if !inp.hit_water || d.timer != 0 {
                d.active = true;
                d.timer = d.timer + inp.dt_millis;
                if d.timer >= 500 {
                    d.state = 1;
                }
                if inp.hit_water {
                    d.state = 2;
                    d.timer = 333;
                }
            } else {
                d.state = 3;
            }
        },
        1 => {
            d.active = true;
            if inp.flag_xa7 != 0 || !inp.stationary_spin {
                d.state = 2;
                d.timer = 500;
            }
            if inp.hit_water {
                d.state = 2;
                d.timer = 333;
            }
        },
        2 => {
            d.active = false;
            d.timer = d.timer - inp.dt_millis;
            if d.timer <= 0 {
                d.state = 3;
            }
        },
        3 => d.active = false,
        _ => {},
    }
}

/// The four states are closed under an update: from 0 to 3 the machine
/// stays within 0 to 3, and an unknown state is left exactly as it is.
pub proof fn lemma_dash_states_closed(d: DashState, inp: DashInputs)
    ensures
        d.state <= 3 ==> dash_step(d, inp).state <= 3,
        d.state > 3 ==> dash_step(d, inp) == d,
{
}

/// A finished dash stays finished, and it is not active.
pub proof fn lemma_dash_over_is_final(d: DashState, inp: DashInputs)
    requires
        d.state == 3,
    ensures
        dash_step(d, inp).state == 3,
        dash_step(d, inp).timer == d.timer,
        !dash_step(d, inp).active,
{
}

/// Touching water ends a charging or charged dash: it winds down from
/// 333 ms, or, while charging from a standstill (timer zero), it is over at once.
pub proof fn lemma_water_ends_dash(d: DashState, inp: DashInputs)
    requires
        d.state == 0 || d.state == 1,
        inp.hit_water,
    ensures
        dash_step(d, inp).state == 2 && dash_step(d, inp).timer == 333 || dash_step(
            d,
            inp,
        ).state == 3,
        d.state == 1 || d.timer != 0 ==> dash_step(d, inp).state == 2 && dash_step(d, inp).timer
            == 333,
{
}

/// While winding down, each update takes its length off the timer; the dash
/// is over once the timer is no longer positive.
pub proof fn lemma_wind_down(d: DashState, inp: DashInputs)
    requires
        d.state == 2,
        dash_step_fits(d, inp),
    ensures
        dash_step(d, inp).timer == d.timer - inp.dt_millis,
        !dash_step(d, inp).active,
        dash_step(d, inp).state == (if d.timer - inp.dt_millis <= 0 {
            3u8
        } else {
            2u8
        }),
{
}

/// A charge becomes a charged dash once 500 ms have accumulated without water.
pub proof fn lemma_charge_completes(d: DashState, inp: DashInputs)
    requires
        d.state == 0,
        !inp.hit_water,
        dash_step_fits(d, inp),
    ensures
        dash_step(d, inp).timer == d.timer + inp.dt_millis,
        dash_step(d, inp).active,
        dash_step(d, inp).state == (if d.timer + inp.dt_millis >= 500 {
            1u8
        } else {
            0u8
        }),
{
}

/// The prince's stamina and dash settings that the game counts in ticks
/// and the replaced routines count in milliseconds.
#[derive(Debug, Copy, Clone, PartialEq, Eq)]
pub struct PrinceTimers {
    pub dash_input_window: i32,
    pub stamina_limit: i32,
    pub max_exhaustion: i32,
    pub stamina_gain_amount: i32,
    pub stamina_gain_interval: i32,
}

/// `v * 1000` fits in `i32`.
pub open spec fn millis_fit(v: i32) -> bool {
    i32::MIN <= v * 1000 <= i32::MAX
}

impl PrinceTimers {
    /// Converts every setting from ticks to milliseconds, `v * 1000 / 30`
    /// rounded toward zero, once at the princes' initialisation.
    pub fn to_millis(&mut self)
        requires
            millis_fit(old(self).dash_input_window),
            millis_fit(old(self).stamina_limit),
            millis_fit(old(self).max_exhaustion),
            millis_fit(old(self).stamina_gain_amount),
            millis_fit(old(self).stamina_gain_interval),
        ensures
            final(self).dash_input_window == div_toward_zero(old(self).dash_input_window * 1000, 30),
            final(self).stamina_limit == div_toward_zero(old(self).stamina_limit * 1000, 30),
            final(self).max_exhaustion == div_toward_zero(old(self).max_exhaustion * 1000, 30),
            final(self).stamina_gain_amount == div_toward_zero(
                old(self).stamina_gain_amount * 1000,
                30,
            ),
            final(self).stamina_gain_interval == div_toward_zero(
                old(self).stamina_gain_interval * 1000,
                30,
            ),
    {
        self.max_exhaustion = ticks_to_millis(self.max_exhaustion);
        self.stamina_gain_amount = ticks_to_millis(self.stamina_gain_amount);
        self.stamina_gain_interval = ticks_to_millis(self.stamina_gain_interval);
        self.stamina_limit = ticks_to_millis(self.stamina_limit);
        self.dash_input_window = ticks_to_millis(self.dash_input_window);
    }

    /// The stamina a prince starts with: the limit, cut to its low 16 bits.
    pub fn initial_stamina(&self) -> (r: i16)
        ensures
            r == self.stamina_limit as i16,
    {
        self.stamina_limit as i16
    }
}

} // verus!
