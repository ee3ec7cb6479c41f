use katamari_ffi::replacements::cacophony::{gunshot_gate, npc_approaching, ApproachSound};
use katamari_ffi::replacements::camera::{CREDITS_TIMER_START_A, CREDITS_TIMER_START_B};
use katamari_ffi::replacements::dash::{dash_state_machine, DashInputs, DashState, PrinceTimers};
use katamari_ffi::replacements::movement::{
    follows_velocity, ClimbCounters, SlopeTimers, SLOPE_DOWNHILL, SLOPE_UPHILL,
};
use katamari_ffi::replacements::shuf;
use katamari_ffi::replacements::things::{
    animal_full_walk_timer, animal_partial_walk_timer, balloon_desync_timer, bird_timer,
    flee_timer_millis, other_hop_timer, ExtraThingState, GETUP_DELAY_MILLIS,
};
use katamari_ffi::replacements::values::{carry_micros, ticks_to_millis};

#[test]
fn shuf_packs_selectors() {
    assert_eq!(shuf(0, 1, 2, 3), 0b11_10_01_00);
    assert_eq!(shuf(3, 2, 1, 0), 0b00_01_10_11);
    assert_eq!(shuf(0, 0, 0, 0), 0);
    assert_eq!(shuf(1, 1, 1, 1), 0x55);
    for (x, y, z, w) in [(0u8, 1u8, 2u8, 3u8), (2, 0, 3, 1), (3, 3, 0, 2)] {
        let r = shuf(x, y, z, w);
        assert_eq!(r & 3, x);
        assert_eq!((r >> 2) & 3, y);
        assert_eq!((r >> 4) & 3, z);
        assert_eq!((r >> 6) & 3, w);
    }
}

#[test]
fn ticks_convert_to_millis() {
    assert_eq!(ticks_to_millis(30), 1000);
    assert_eq!(ticks_to_millis(20), 666);
    assert_eq!(ticks_to_millis(1), 33);
    assert_eq!(ticks_to_millis(0), 0);
    assert_eq!(ticks_to_millis(-1), -33);
}

#[test]
fn micros_carry_into_millis() {
    assert_eq!(carry_micros(16, 0, 667), (16, 667));
    assert_eq!(carry_micros(16, 667, 667), (17, 334));
    assert_eq!(carry_micros(16, 500, 500), (16, 1000));
    assert_eq!(carry_micros(16, 1000, 1001), (18, 1));
    // conservation: nothing is lost
    let (m, a) = carry_micros(33, 900, 950);
    assert_eq!(m as i64 * 1000 + a as i64, 33 * 1000 + 900 + 950);
}

#[test]
fn extra_thing_state_starts_at_zero() {
    let s = ExtraThingState::new();
    assert_eq!(s.rng_timer, 0);
    assert_eq!(s.getup_timer, 0);
}

#[test]
fn rng_timer_range() {
    let mut s = ExtraThingState::new();
    s.start_rng_timer(0);
    assert_eq!(s.rng_timer, 667);
    s.start_rng_timer(2099);
    assert_eq!(s.rng_timer, 2766);
    s.start_rng_timer(2100);
    assert_eq!(s.rng_timer, 667);
    s.start_rng_timer(u32::MAX);
    assert_eq!(s.rng_timer as u32, u32::MAX % 2100 + 667);
}

#[test]
fn fish_timer_counts_down_to_zero() {
    let mut s = ExtraThingState::new();
    s.rng_timer = 40;
    assert_eq!(s.decrement_fish_timer(16), 100);
    assert_eq!(s.rng_timer, 24);
    assert_eq!(s.decrement_fish_timer(16), 100);
    assert_eq!(s.rng_timer, 8);
    assert_eq!(s.decrement_fish_timer(16), 0);
    assert_eq!(s.rng_timer, 0);
    assert_eq!(s.decrement_fish_timer(16), 0);
    assert_eq!(s.rng_timer, 0);
}

#[test]
fn getup_timer_advances() {
    let mut s = ExtraThingState::new();
    s.advance_getup_timer(16);
    s.advance_getup_timer(17);
    assert_eq!(s.getup_timer, 33);
    assert_eq!(s.rng_timer, 0);
    assert_eq!(GETUP_DELAY_MILLIS, 267);
}

#[test]
fn flee_timer_conversion() {
    assert_eq!(flee_timer_millis(30), 1000);
    assert_eq!(flee_timer_millis(20), 666);
    assert_eq!(flee_timer_millis(0), 0);
    // 65535 ticks = 2184500 ms, cut to 16 bits
    assert_eq!(flee_timer_millis(u16::MAX), (2_184_500u32 % 0x10000) as u16);
}

#[test]
fn bird_timer_values() {
    assert_eq!(bird_timer(0, 0), 167);
    assert_eq!(bird_timer(1, 0), 200);
    assert_eq!(bird_timer(0, 499), 666);
    assert_eq!(bird_timer(0, 500), 167);
    assert_eq!(bird_timer(10, 7), (7 + 330) % 500 + 167);
}

#[test]
fn animal_timers() {
    assert_eq!(animal_full_walk_timer(0, 0), 4000);
    assert_eq!(animal_full_walk_timer(1, 0), 4000 + 0x23a);
    assert_eq!(animal_full_walk_timer(10, 5), ((15 * 0x23a) % 8567 + 4000) as u16);
    assert_eq!(animal_partial_walk_timer(1000, 333, 0), 333);
    assert_eq!(animal_partial_walk_timer(1000, 333, 1999), 1332);
    assert_eq!(animal_partial_walk_timer(2000, 667, 2500), 1167);
}

#[test]
fn hop_and_balloon_timers() {
    assert_eq!(other_hop_timer(0), 667);
    assert_eq!(other_hop_timer(8499), 9166);
    assert_eq!(other_hop_timer(8500), 667);
    assert_eq!(balloon_desync_timer(1999), 1999);
    assert_eq!(balloon_desync_timer(2000), 0);
    assert_eq!(balloon_desync_timer(4321), 321);
}

#[test]
fn npc_approach_counts_down() {
    assert_eq!(
        npc_approaching(100, 30, 16, true, 0),
        ApproachSound { timer: 84, play: false }
    );
    assert_eq!(
        npc_approaching(16, 30, 16, true, 0),
        ApproachSound { timer: 0, play: false }
    );
}

#[test]
fn npc_approach_restarts_and_plays() {
    assert_eq!(
        npc_approaching(10, 30, 16, true, 0),
        ApproachSound { timer: 1000, play: true }
    );
    assert_eq!(
        npc_approaching(10, 20, 16, false, 0),
        ApproachSound { timer: 666, play: false }
    );
    assert_eq!(
        npc_approaching(10, 30, 16, true, 1),
        ApproachSound { timer: 1000, play: false }
    );
}

#[test]
fn gunshot_cooldown() {
    assert_eq!(gunshot_gate(None), (7, true));
    assert_eq!(gunshot_gate(Some(0)), (4, false));
    assert_eq!(gunshot_gate(Some(199_999_999)), (4, false));
    assert_eq!(gunshot_gate(Some(200_000_000)), (7, true));
    assert_eq!(gunshot_gate(Some(5_000_000_000)), (7, true));
}

fn inputs(hit_water: bool, flag_xa7: u8, stationary_spin: bool, dt_millis: i16) -> DashInputs {
    DashInputs { hit_water, flag_xa7, stationary_spin, dt_millis }
}

#[test]
fn dash_charges_then_completes() {
    let mut d = DashState { state: 0, timer: 0, active: false };
    dash_state_machine(&mut d, inputs(false, 0, true, 250));
    assert_eq!(d, DashState { state: 0, timer: 250, active: true });
    dash_state_machine(&mut d, inputs(false, 0, true, 250));
    assert_eq!(d, DashState { state: 1, timer: 500, active: true });
    // still spinning in place: stays charged
    dash_state_machine(&mut d, inputs(false, 0, true, 16));
    assert_eq!(d, DashState { state: 1, timer: 500, active: true });
    // released: winds down from 500 ms
    dash_state_machine(&mut d, inputs(false, 0, false, 16));
    assert_eq!(d, DashState { state: 2, timer: 500, active: true });
    dash_state_machine(&mut d, inputs(false, 0, false, 300));
    assert_eq!(d, DashState { state: 2, timer: 200, active: false });
    dash_state_machine(&mut d, inputs(false, 0, false, 300));
    assert_eq!(d, DashState { state: 3, timer: -100, active: false });
    dash_state_machine(&mut d, inputs(true, 1, false, 300));
    assert_eq!(d, DashState { state: 3, timer: -100, active: false });
}

#[test]
fn dash_water_ends_charge() {
    let mut d = DashState { state: 0, timer: 100, active: false };
    dash_state_machine(&mut d, inputs(true, 0, true, 16));
    assert_eq!(d, DashState { state: 2, timer: 333, active: true });

    let mut fresh = DashState { state: 0, timer: 0, active: false };
    dash_state_machine(&mut fresh, inputs(true, 0, true, 16));
    assert_eq!(fresh, DashState { state: 3, timer: 0, active: false });

    let mut charged = DashState { state: 1, timer: 500, active: true };
    dash_state_machine(&mut charged, inputs(true, 1, false, 16));
    assert_eq!(charged, DashState { state: 2, timer: 333, active: true });
}

#[test]
fn dash_flag_ends_charged_dash() {
    let mut d = DashState { state: 1, timer: 520, active: false };
    dash_state_machine(&mut d, inputs(false, 1, true, 16));
    assert_eq!(d, DashState { state: 2, timer: 500, active: true });
}

#[test]
fn dash_unknown_state_untouched() {
    let mut d = DashState { state: 9, timer: 12, active: true };
    dash_state_machine(&mut d, inputs(true, 1, true, 16));
    assert_eq!(d, DashState { state: 9, timer: 12, active: true });
}

#[test]
fn prince_timers_in_millis() {
    let mut t = PrinceTimers {
        dash_input_window: 15,
        stamina_limit: 60,
        max_exhaustion: 90,
        stamina_gain_amount: 3,
        stamina_gain_interval: 1,
    };
    t.to_millis();
    assert_eq!(
        t,
        PrinceTimers {
            dash_input_window: 500,
            stamina_limit: 2000,
            max_exhaustion: 3000,
            stamina_gain_amount: 100,
            stamina_gain_interval: 33,
        }
    );
    assert_eq!(t.initial_stamina(), 2000);
    let big = PrinceTimers { stamina_limit: 70_000, ..t };
    assert_eq!(big.initial_stamina(), 70_000u32 as u16 as i16);
}

#[test]
fn slope_timers() {
    let mut s = SlopeTimers { time_spent_going_uphill: 100, time_spent_going_downhill: 50, slope_state: 0 };
    s.go_uphill(16);
    assert_eq!(s, SlopeTimers { time_spent_going_uphill: 116, time_spent_going_downhill: 0, slope_state: SLOPE_UPHILL });
    s.go_downhill(16);
    assert_eq!(s, SlopeTimers { time_spent_going_uphill: 0, time_spent_going_downhill: 16, slope_state: SLOPE_DOWNHILL });
    let mut full = SlopeTimers { time_spent_going_uphill: 65530, time_spent_going_downhill: 0, slope_state: 1 };
    full.go_uphill(16);
    assert_eq!(full.time_spent_going_uphill, u16::MAX);
}

#[test]
fn katamari_follows_velocity() {
    assert_eq!(follows_velocity(false, true, false, 0), (true, 0));
    assert_eq!(follows_velocity(false, true, false, 5), (true, 5));
    assert_eq!(follows_velocity(true, true, false, 0), (false, 0));
    assert_eq!(follows_velocity(true, true, true, 0), (true, 0));
    assert_eq!(follows_velocity(true, false, false, 0), (true, 0));
    assert_eq!(follows_velocity(true, true, false, 3), (true, 2));
    assert_eq!(follows_velocity(true, false, false, -2), (true, -3));
}

#[test]
fn climb_counters() {
    let mut c = ClimbCounters { climb_timer: 4, another_climb_timer: 0, climb_height_reached: false };
    assert!(c.update(false, 10));
    assert_eq!(c, ClimbCounters { climb_timer: 5, another_climb_timer: 0, climb_height_reached: true });
    assert!(!c.update(false, 10));
    assert_eq!(c, ClimbCounters { climb_timer: 5, another_climb_timer: 1, climb_height_reached: true });
    assert!(!c.update(true, 6));
    assert_eq!(c, ClimbCounters { climb_timer: 6, another_climb_timer: 1, climb_height_reached: true });
}

#[test]
fn credits_timers() {
    assert_eq!(CREDITS_TIMER_START_A, 30_000);
    assert_eq!(CREDITS_TIMER_START_B, 214_800);
}

#[test]
fn partial_walk_timer_wraps_to_16_bits() {
    assert_eq!(animal_partial_walk_timer(10, 65530, 7), ((65530u32 + 7) % 0x10000) as u16);
    assert_eq!(animal_partial_walk_timer(1, 70_000, 12345), (70_000u32 % 0x10000) as u16);
}

#[test]
fn climb_timer_untouched_outside_multiplayer() {
    assert_eq!(follows_velocity(false, false, false, i16::MIN), (true, i16::MIN));
}

#[test]
fn carried_remainders_add_up() {
    // a run of updates of 16.667 ms: remainders 667 each
    let mut acc: i16 = 0;
    let mut total_millis: i64 = 0;
    for _ in 0..30 {
        let (m, a) = carry_micros(16, acc, 667);
        assert!(m == 16 || m == 17);
        assert!((0..=1000).contains(&a));
        total_millis += m as i64;
        acc = a;
    }
    assert_eq!(total_millis * 1000 + acc as i64, 30 * (16_000 + 667));
}
