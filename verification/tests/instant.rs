//! Instants, durations between them, and unix time by an anchor.

use minstant::calibration::Sample;
use minstant::instant::{Anchor, Instant};
use minstant::tsc_now::{init, monotonic_with_tsc, CalibrationState};
use std::cmp::Ordering;

fn state(cycles_per_second: u64, origin: u64) -> CalibrationState {
    CalibrationState::new(cycles_per_second, origin).expect("the frequency is not zero")
}

#[test]
fn now_is_the_cycle_count_of_the_reading() {
    let state = state(3_000_000_000, 5_000);
    assert_eq!(Instant::now(&state, 5_000).as_cycles(), 0);
    assert_eq!(Instant::now(&state, 8_000).as_cycles(), 3_000);
    assert_eq!(Instant::now(&state, 4_999).as_cycles(), u64::MAX);
}

#[test]
fn instants_are_ordered_by_their_cycles() {
    let state = state(3_000_000_000, 0);
    let a = Instant::now(&state, 10);
    let b = Instant::now(&state, 11);
    assert!(a < b);
    assert!(b > a);
    assert!(a <= a);
    assert_eq!(a, Instant::now(&state, 10));
    assert_ne!(a, b);
    assert_eq!(a.max(b), b);
    assert_eq!(a.partial_cmp(&b), Some(Ordering::Less));
    assert_eq!(b.partial_cmp(&a), Some(Ordering::Greater));
    assert_eq!(a.partial_cmp(&a), Some(Ordering::Equal));
    assert_eq!(a.cmp(&b), Ordering::Less);
    // A reading below the origin wraps to the far end of the count.
    assert!(Instant::now(&state, u64::MAX) > b);
}

#[test]
fn duration_since_is_the_time_between_two_instants() {
    let state = state(3_000_000_000, 5_000);
    let start = Instant::now(&state, 6_000);
    let end = Instant::now(&state, 9_000);
    assert_eq!(end.duration_since(start, &state), 1_000);
    assert_eq!(start.duration_since(start, &state), 0);
    let little_later = Instant::now(&state, 6_002);
    assert_eq!(little_later.duration_since(start, &state), 0);
    let second_later = Instant::now(&state, 3_000_006_000);
    assert_eq!(second_later.duration_since(start, &state), 1_000_000_000);
}

#[test]
fn duration_since_a_later_instant_is_zero() {
    let state = state(3_000_000_000, 5_000);
    let start = Instant::now(&state, 6_000);
    let end = Instant::now(&state, 9_000);
    assert_eq!(start.duration_since(end, &state), 0);
}

#[test]
fn elapsed_is_the_time_to_the_reading() {
    let state = state(2_400_000_000, 100);
    let start = Instant::now(&state, 1_000);
    assert_eq!(start.elapsed(&state, 1_000), 0);
    assert_eq!(start.elapsed(&state, 3_400), 1_000);
    assert_eq!(start.elapsed(&state, 2_400_001_000), 1_000_000_000);
    assert_eq!(start.elapsed(&state, 999), 0);
}

#[test]
fn an_anchor_keeps_what_it_was_taken_with() {
    let state = state(3_000_000_000, 5_000);
    let anchor = Anchor::new(&state, 8_000, 1_700_000_000_000_000_000);
    assert_eq!(anchor.unix_time_ns(), 1_700_000_000_000_000_000);
    assert_eq!(anchor.cycle(), Instant::now(&state, 8_000));
    assert_eq!(anchor.state().cycles_per_second(), 3_000_000_000);
    assert_eq!(anchor.state().cycle_origin_offset(), 5_000);
}

#[test]
fn unix_time_of_the_anchor_instant_is_that_of_the_anchor() {
    let state = state(3_000_000_000, 5_000);
    let anchor = Anchor::new(&state, 8_000, 1_700_000_000_000_000_000);
    assert_eq!(anchor.cycle().as_unix_nanos(&anchor), 1_700_000_000_000_000_000);
}

#[test]
fn unix_time_after_the_anchor_adds_the_time_since() {
    let state = state(3_000_000_000, 5_000);
    let anchor = Anchor::new(&state, 8_000, 1_700_000_000_000_000_000);
    let later = Instant::now(&state, 8_000 + 3_000_000_000);
    assert_eq!(later.as_unix_nanos(&anchor), 1_700_000_001_000_000_000);
    let little_later = Instant::now(&state, 8_005);
    assert_eq!(little_later.as_unix_nanos(&anchor), 1_700_000_000_000_000_001);
}

#[test]
fn unix_time_before_the_anchor_subtracts_the_time_until() {
    let state = state(3_000_000_000, 5_000);
    let anchor = Anchor::new(&state, 3_000_008_000, 1_700_000_000_000_000_000);
    let earlier = Instant::now(&state, 8_000);
    assert_eq!(earlier.as_unix_nanos(&anchor), 1_699_999_999_000_000_000);
    let little_earlier = Instant::now(&state, 3_000_007_995);
    assert_eq!(little_earlier.as_unix_nanos(&anchor), 1_699_999_999_999_999_999);
    let less_than_a_nano_earlier = Instant::now(&state, 3_000_007_998);
    assert_eq!(less_than_a_nano_earlier.as_unix_nanos(&anchor), 1_700_000_000_000_000_000);
}

#[test]
fn unix_time_stays_within_64_bits() {
    let state = state(1_000_000_000, 0);
    let early_anchor = Anchor::new(&state, 1_000, 400);
    assert_eq!(Instant::now(&state, 700).as_unix_nanos(&early_anchor), 100);
    assert_eq!(Instant::now(&state, 600).as_unix_nanos(&early_anchor), 0);
    assert_eq!(Instant::now(&state, 0).as_unix_nanos(&early_anchor), 0);
    let late_anchor = Anchor::new(&state, 1_000, u64::MAX - 400);
    assert_eq!(Instant::now(&state, 1_300).as_unix_nanos(&late_anchor), u64::MAX - 100);
    assert_eq!(Instant::now(&state, 1_400).as_unix_nanos(&late_anchor), u64::MAX);
    assert_eq!(Instant::now(&state, 5_000).as_unix_nanos(&late_anchor), u64::MAX);
}

#[test]
fn unix_time_follows_the_instants_under_one_anchor() {
    let state = state(2_999_999_700, 0);
    let anchor = Anchor::new(&state, 1_000_000, 1_700_000_000_000_000_000);
    let readings = [
        0u64,
        1,
        999_997,
        999_999,
        1_000_000,
        1_000_001,
        1_000_003,
        5_000_000_000,
        u64::MAX,
    ];
    for pair in readings.windows(2) {
        let i1 = Instant::now(&state, pair[0]);
        let i2 = Instant::now(&state, pair[1]);
        assert!(i1 < i2);
        assert!(i1.as_unix_nanos(&anchor) <= i2.as_unix_nanos(&anchor));
    }
}

#[test]
fn an_instant_at_or_after_the_anchor_is_not_before_it_in_unix_time() {
    let state = state(24_000_000, 77);
    let anchor = Anchor::new(&state, 10_000, 1_234_567);
    for tsc in [10_000u64, 10_001, 10_023, 10_024, 1_000_000, u64::MAX] {
        assert!(Instant::now(&state, tsc).as_unix_nanos(&anchor) >= 1_234_567);
    }
    for tsc in [77u64, 5_000, 9_999, 10_000] {
        assert!(Instant::now(&state, tsc).as_unix_nanos(&anchor) <= 1_234_567);
    }
}

#[test]
fn durations_add_up_to_within_a_nanosecond() {
    let state = state(3_000_000_000, 0);
    let at = |tsc: u64| Instant::now(&state, tsc);
    // Two halves of whole nanoseconds.
    assert_eq!(at(6).duration_since(at(0), &state), 2);
    assert_eq!(at(3).duration_since(at(0), &state), 1);
    assert_eq!(at(6).duration_since(at(3), &state), 1);
    // Two halves that each lose a part of a nanosecond.
    assert_eq!(at(4).duration_since(at(0), &state), 1);
    assert_eq!(at(2).duration_since(at(0), &state), 0);
    assert_eq!(at(4).duration_since(at(2), &state), 0);
    for (first, second, third) in [(0u64, 2u64, 4u64), (5, 5, 9), (1, 1_000, 1_000_000), (7, 8, 9)] {
        let whole = at(third).duration_since(at(first), &state);
        let parts = at(second).duration_since(at(first), &state)
            + at(third).duration_since(at(second), &state);
        assert!(parts <= whole && whole <= parts + 1);
    }
}

#[test]
fn unix_time_agrees_with_durations_to_within_a_nanosecond() {
    let state = state(3_000_000_000, 0);
    let anchor = Anchor::new(&state, 1_000, 1_700_000_000_000_000_000);
    let readings = [0u64, 1, 998, 999, 1_000, 1_001, 1_002, 1_004, 4_000, 3_000_001_000];
    for (k, earlier) in readings.iter().enumerate() {
        for later in &readings[k..] {
            let i1 = Instant::now(&state, *earlier);
            let i2 = Instant::now(&state, *later);
            let apart = i2.as_unix_nanos(&anchor) - i1.as_unix_nanos(&anchor);
            let duration = i2.duration_since(i1, &state);
            assert!(apart + 1 >= duration && apart <= duration + 1);
        }
    }
    // Across the anchor the two roundings go opposite ways.
    let before = Instant::now(&state, 998);
    let after = Instant::now(&state, 1_002);
    assert_eq!(after.duration_since(before, &state), 1);
    assert_eq!(after.as_unix_nanos(&anchor) - before.as_unix_nanos(&anchor), 0);
}

#[test]
fn an_exact_counter_keeps_the_time_of_the_wall_clock() {
    // A counter of 2.4 GHz that read 1_000_000 when the wall clock read zero.
    let counter_at = |nanos: u64| 1_000_000 + nanos / 5 * 12;
    let samples: Vec<Sample> = [0u64, 10_000_005, 10_000_010, 20_000_020]
        .iter()
        .map(|nanos| monotonic_with_tsc(*nanos, counter_at(*nanos)))
        .collect();
    let state = init(0, &samples).expect("two windows that agree");
    assert_eq!(state.cycles_per_second(), 2_400_000_000);
    assert_eq!(state.cycle_origin_offset(), 1_000_000);
    let start = Instant::now(&state, counter_at(50_000_000));
    for nanos in [0u64, 5, 1_000, 123_456_785, 86_400_000_000_000] {
        assert_eq!(start.elapsed(&state, counter_at(50_000_000 + nanos)), nanos);
    }
    let anchor = Anchor::new(&state, counter_at(60_000_000), 1_700_000_000_000_000_000);
    assert_eq!(start.as_unix_nanos(&anchor), 1_700_000_000_000_000_000 - 10_000_000);
}
