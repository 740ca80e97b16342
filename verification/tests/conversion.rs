//! The calibration state, the cycle count and the conversion between cycles
//! and nanoseconds.

use minstant::arith::{mul_div_ceil, mul_div_floor, NANOS_PER_SECOND};
use minstant::tsc_now::{current_cycle, CalibrationState};

fn state(cycles_per_second: u64, origin: u64) -> CalibrationState {
    CalibrationState::new(cycles_per_second, origin).expect("the frequency is not zero")
}

#[test]
fn a_second_has_a_billion_nanoseconds() {
    assert_eq!(NANOS_PER_SECOND, 1_000_000_000);
}

#[test]
fn mul_div_floor_rounds_down() {
    assert_eq!(mul_div_floor(7, 3, 2), 10);
    assert_eq!(mul_div_floor(7, 3, 21), 1);
    assert_eq!(mul_div_floor(7, 3, 22), 0);
    assert_eq!(mul_div_floor(0, 3, 22), 0);
}

#[test]
fn mul_div_ceil_rounds_up() {
    assert_eq!(mul_div_ceil(7, 3, 2), 11);
    assert_eq!(mul_div_ceil(7, 3, 21), 1);
    assert_eq!(mul_div_ceil(7, 3, 22), 1);
    assert_eq!(mul_div_ceil(0, 3, 22), 0);
}

#[test]
fn mul_div_keeps_products_beyond_64_bits() {
    assert_eq!(mul_div_floor(u64::MAX, u64::MAX, u64::MAX), u64::MAX);
    assert_eq!(mul_div_ceil(u64::MAX, u64::MAX, u64::MAX), u64::MAX);
    assert_eq!(mul_div_floor(u64::MAX, 1_000, 2_000), u64::MAX / 2);
    assert_eq!(mul_div_ceil(u64::MAX, 1_000, 2_000), u64::MAX / 2 + 1);
}

#[test]
fn mul_div_saturates() {
    assert_eq!(mul_div_floor(u64::MAX, 2, 1), u64::MAX);
    assert_eq!(mul_div_ceil(u64::MAX, 2, 1), u64::MAX);
    assert_eq!(mul_div_floor(u64::MAX, u64::MAX, 1), u64::MAX);
    // The quotient is the largest value and a remainder is left.
    assert_eq!(mul_div_ceil(u64::MAX, 3, 3), u64::MAX);
    assert_eq!(mul_div_floor(u64::MAX - 1, 3, 3), u64::MAX - 1);
}

#[test]
fn a_state_keeps_what_it_was_made_with() {
    let state = state(2_400_000_000, 123_456);
    assert_eq!(state.cycles_per_second(), 2_400_000_000);
    assert_eq!(state.cycle_origin_offset(), 123_456);
}

#[test]
fn there_is_no_state_with_a_frequency_of_zero() {
    assert!(CalibrationState::new(0, 0).is_none());
    assert!(CalibrationState::new(0, 123_456).is_none());
    assert!(CalibrationState::new(1, 0).is_some());
}

#[test]
fn current_cycle_counts_from_the_origin() {
    let state = state(3_000_000_000, 5_000);
    assert_eq!(current_cycle(&state, 5_000), 0);
    assert_eq!(current_cycle(&state, 5_001), 1);
    assert_eq!(current_cycle(&state, 63_002_003), 62_997_003);
    assert_eq!(current_cycle(&state, u64::MAX), u64::MAX - 5_000);
}

#[test]
fn current_cycle_wraps_below_the_origin() {
    let state = state(3_000_000_000, 5_000);
    assert_eq!(current_cycle(&state, 4_999), u64::MAX);
    assert_eq!(current_cycle(&state, 0), u64::MAX - 4_999);
}

#[test]
fn current_cycle_follows_the_counter() {
    let state = state(3_000_000_000, 5_000);
    let readings = [5_000u64, 5_001, 5_001, 7_000, 1_000_000_000_000, u64::MAX];
    let mut prev = 0;
    for tsc in readings {
        let cur = current_cycle(&state, tsc);
        assert!(cur >= prev);
        prev = cur;
    }
    // A reading that wraps past the origin is no later cycle.
    let wrapped = current_cycle(&state, 4_000);
    assert!(current_cycle(&state, 6_000) < wrapped);
}

#[test]
fn cycles_convert_to_whole_nanoseconds_rounded_down() {
    let state = state(3_000_000_000, 0);
    assert_eq!(state.cycles_to_duration(0), 0);
    assert_eq!(state.cycles_to_duration(1), 0);
    assert_eq!(state.cycles_to_duration(2), 0);
    assert_eq!(state.cycles_to_duration(3), 1);
    assert_eq!(state.cycles_to_duration(5), 1);
    assert_eq!(state.cycles_to_duration(3_000_000), 1_000_000);
    assert_eq!(state.cycles_to_duration(3_000_000_000), 1_000_000_000);
    assert_eq!(state.cycles_to_duration(2_999_999_999), 999_999_999);
}

#[test]
fn cycles_convert_at_a_frequency_that_is_no_round_number() {
    let state = state(2_999_999_700, 0);
    // 1e9 cycles are 333_333_366.66… ns.
    assert_eq!(state.cycles_to_duration(1_000_000_000), 333_333_366);
    assert_eq!(state.cycles_to_duration(2_999_999_700), 1_000_000_000);
    assert_eq!(state.cycles_to_duration(2_999_999_699), 999_999_999);
}

#[test]
fn thirty_years_of_cycles_convert_without_overflow() {
    let state = state(3_000_000_000, 0);
    let seconds = 30 * 365 * 86_400u64;
    assert_eq!(state.cycles_to_duration(3_000_000_000 * seconds), 1_000_000_000 * seconds);
    assert_eq!(state.cycles_to_duration(u64::MAX), u64::MAX / 3);
}

#[test]
fn cycles_of_a_slow_counter_saturate() {
    let slow = state(1, 0);
    assert_eq!(slow.cycles_to_duration(18_446_744_073), 18_446_744_073_000_000_000);
    assert_eq!(slow.cycles_to_duration(18_446_744_074), u64::MAX);
    assert_eq!(slow.cycles_to_duration(u64::MAX), u64::MAX);
}

#[test]
fn nanoseconds_convert_to_whole_cycles_rounded_down() {
    let state = state(3_000_000_000, 0);
    assert_eq!(state.duration_to_cycles(0), 0);
    assert_eq!(state.duration_to_cycles(1), 3);
    assert_eq!(state.duration_to_cycles(1_000_000), 3_000_000);
    assert_eq!(state.duration_to_cycles(1_000_000_000), 3_000_000_000);
    let slow = CalibrationState::new(24_000_000, 0).expect("the frequency is not zero");
    assert_eq!(slow.duration_to_cycles(41), 0);
    assert_eq!(slow.duration_to_cycles(42), 1);
    assert_eq!(slow.duration_to_cycles(1_000), 24);
}

#[test]
fn nanoseconds_of_a_fast_counter_saturate() {
    let state = state(3_000_000_000, 0);
    assert_eq!(state.duration_to_cycles(u64::MAX / 3), u64::MAX);
    assert_eq!(state.duration_to_cycles(u64::MAX / 3 + 1), u64::MAX);
    assert_eq!(state.duration_to_cycles(u64::MAX), u64::MAX);
}

#[test]
fn round_trip_recovers_the_cycles_within_one_nanosecond_of_cycles() {
    let state = state(3_000_000_000, 0);
    let thirty_years = 3_000_000_000 * 30 * 365 * 86_400u64;
    for x in [0u64, 1, 2, 3, 4, 5, 3_000_000, 3_000_001, thirty_years, thirty_years + 2] {
        let back = state.duration_to_cycles(state.cycles_to_duration(x));
        assert!(back <= x);
        assert!(x - back <= 3);
        assert_eq!(back, x - x % 3);
    }
}

#[test]
fn round_trip_at_up_to_a_gigahertz_loses_at_most_one_cycle() {
    for hz in [1u64, 24_000_000, 999_999_999, 1_000_000_000] {
        let state = state(hz, 0);
        for x in [0u64, 1, 2, 41, 42, 24_000, 1_000_000_007, 18_446_744_073] {
            let back = state.duration_to_cycles(state.cycles_to_duration(x));
            assert!(back <= x);
            assert!(x - back <= 1);
        }
    }
    let state = state(1_000_000_000, 0);
    assert_eq!(state.duration_to_cycles(state.cycles_to_duration(u64::MAX)), u64::MAX);
}

#[test]
fn round_trip_is_lost_where_the_nanoseconds_saturate() {
    let slow = state(1, 0);
    let back = slow.duration_to_cycles(slow.cycles_to_duration(u64::MAX));
    assert_eq!(back, 18_446_744_073);
}
