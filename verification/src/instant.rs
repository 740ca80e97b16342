//! Instants on the cycle count of a process, and the anchor that maps them
//! to unix time.

use crate::arith::{lemma_scale_floor_additive, NANOS_PER_SECOND};
use crate::calibration::cycles_between;
use crate::tsc_now::{
    current_cycle, cycles_to_nanos, lemma_cycles_to_nanos_monotonic, CalibrationState,
};
use std::cmp::Ordering;
use vstd::prelude::*;
use vstd::std_specs::cmp::PartialOrdSpecImpl;

verus! {

/// A point on the cycle count of a process: a number of cycles since the
/// origin of its calibration state.
///
/// Instants of one process are ordered by their cycle counts.
#[derive(Clone, Copy, Debug, PartialEq, Eq, Structural, Ord, Hash)]
pub struct Instant(u64);

/// Instants compare as their cycle counts do.
impl PartialOrd for Instant {
    fn partial_cmp(&self, other: &Instant) -> (r: Option<Ordering>) {
        if self.0 < other.0 {
            Some(Ordering::Less)
        } else if self.0 > other.0 {
            Some(Ordering::Greater)
        } else {
            Some(Ordering::Equal)
        }
    }
}

impl PartialOrdSpecImpl for Instant {
    open spec fn obeys_partial_cmp_spec() -> bool {
        true
    }

    open spec fn partial_cmp_spec(&self, other: &Instant) -> Option<Ordering> {
        if self.as_cycles() < other.as_cycles() {
            Some(Ordering::Less)
        } else if self.as_cycles() > other.as_cycles() {
            Some(Ordering::Greater)
        } else {
            Some(Ordering::Equal)
        }
    }
}

/// One instant together with the unix time at which it was taken, and the
/// calibration state that converts the distance of another instant to
/// nanoseconds.
#[derive(Clone, Copy, Debug)]
pub struct Anchor {
    unix_time_ns: u64,
    cycle: Instant,
    state: CalibrationState,
}

/// The nanoseconds from cycle count `earlier` to cycle count `later` at
/// `cycles_per_second`, zero where `later` is not after `earlier`.
pub open spec fn nanos_from_to(cycles_per_second: u64, earlier: u64, later: u64) -> u64 {
    if later >= earlier {
        cycles_to_nanos(cycles_per_second, (later - earlier) as u64)
    } else {
        0
    }
}

impl Instant {
    /// The cycle count of the instant.
    pub closed spec fn spec_as_cycles(&self) -> u64 {
        self.0
    }

    /// The cycle count of the instant.
    #[verifier::when_used_as_spec(spec_as_cycles)]
    pub fn as_cycles(&self) -> (r: u64)
        ensures
            r == self.as_cycles(),
    {
        self.0
    }

    /// The instant at which the counter reads `tsc`.
    pub fn now(state: &CalibrationState, tsc: u64) -> (r: Instant)
        ensures
            r.as_cycles() == cycles_between(state.cycle_origin_offset(), tsc),
    {
        Instant(current_cycle(state, tsc))
    }

    /// The time from `earlier` to this instant in whole nanoseconds. It is
    /// zero where `earlier` is the later of the two.
    pub fn duration_since(&self, earlier: Instant, state: &CalibrationState) -> (nanos: u64)
        ensures
            nanos == nanos_from_to(
                state.cycles_per_second(),
                earlier.as_cycles(),
                self.as_cycles(),
            ),
    {
        if self.0 >= earlier.0 {
            state.cycles_to_duration(self.0 - earlier.0)
        } else {
            0
        }
    }

    /// The time from this instant to the moment at which the counter reads
    /// `tsc`, in whole nanoseconds.
    pub fn elapsed(&self, state: &CalibrationState, tsc: u64) -> (nanos: u64)
        ensures
            nanos == nanos_from_to(
                state.cycles_per_second(),
                self.as_cycles(),
                cycles_between(state.cycle_origin_offset(), tsc),
            ),
    {
        Instant::now(state, tsc).duration_since(*self, state)
    }

    /// The unix time of this instant in nanoseconds, by `anchor`: the unix
    /// time of the anchor, plus the time from the anchor to this instant or
    /// less the time from this instant to the anchor.
    ///
    /// The result is kept within 64 bits: it is zero where the instant lies
    /// before 1970, and the largest value where it lies past the range.
    /// An instant at or after the anchor has a unix time at or after that of
    /// the anchor.
    pub fn as_unix_nanos(&self, anchor: &Anchor) -> (unix_nanos: u64)
        ensures
            unix_nanos == anchor.unix_nanos_of(*self),
            self.as_cycles() >= anchor.cycle().as_cycles() ==> unix_nanos >= anchor.unix_time_ns(),
            self.as_cycles() <= anchor.cycle().as_cycles() ==> unix_nanos <= anchor.unix_time_ns(),
    {
        proof {
            use_type_invariant(anchor);
        }
        if self.0 >= anchor.cycle.0 {
            let forward_ns: u64 = anchor.state.cycles_to_duration(self.0 - anchor.cycle.0);
            anchor.unix_time_ns.saturating_add(forward_ns)
        } else {
            let backward_ns: u64 = anchor.state.cycles_to_duration(anchor.cycle.0 - self.0);
            anchor.unix_time_ns.saturating_sub(backward_ns)
        }
    }
}

impl Anchor {
    /// The unix time at which the anchor was taken, in nanoseconds.
    pub closed spec fn spec_unix_time_ns(&self) -> u64 {
        self.unix_time_ns
    }

    /// The instant at which the anchor was taken.
    pub closed spec fn spec_cycle(&self) -> Instant {
        self.cycle
    }

    /// The calibration state by which the anchor converts.
    pub closed spec fn spec_state(&self) -> CalibrationState {
        self.state
    }

    /// An anchor is well formed when its calibration state is. Every anchor
    /// that a program holds is well formed.
    #[verifier::type_invariant]
    pub open spec fn wf(&self) -> bool {
        self.state().wf()
    }

    /// The frequency, in cycles per second, by which the anchor converts.
    pub open spec fn cycles_per_second(&self) -> u64 {
        self.state().cycles_per_second()
    }

    /// The unix time of `instant` in nanoseconds, kept within 64 bits.
    pub open spec fn unix_nanos_of(&self, instant: Instant) -> u64 {
        let at = instant.as_cycles();
        let base = self.cycle().as_cycles();
        if at >= base {
            let forward = cycles_to_nanos(self.cycles_per_second(), (at - base) as u64);
            if self.unix_time_ns() + forward > u64::MAX {
                u64::MAX
            } else {
                (self.unix_time_ns() + forward) as u64
            }
        } else {
            let backward = cycles_to_nanos(self.cycles_per_second(), (base - at) as u64);
            if backward > self.unix_time_ns() {
                0
            } else {
                (self.unix_time_ns() - backward) as u64
            }
        }
    }

    /// Takes an anchor: the counter read `tsc` when the unix time was
    /// `unix_time_ns` nanoseconds.
    pub fn new(state: &CalibrationState, tsc: u64, unix_time_ns: u64) -> (r: Anchor)
        ensures
            r.wf(),
            r.unix_time_ns() == unix_time_ns,
            r.cycle().as_cycles() == cycles_between(state.cycle_origin_offset(), tsc),
            r.state() == *state,
    {
        proof {
            use_type_invariant(state);
        }
        Anchor { unix_time_ns, cycle: Instant::now(state, tsc), state: *state }
    }

    /// The unix time at which the anchor was taken, in nanoseconds.
    #[verifier::when_used_as_spec(spec_unix_time_ns)]
    pub fn unix_time_ns(&self) -> (r: u64)
        ensures
            r == self.unix_time_ns(),
    {
        self.unix_time_ns
    }

    /// The instant at which the anchor was taken.
    #[verifier::when_used_as_spec(spec_cycle)]
    pub fn cycle(&self) -> (r: Instant)
        ensures
            r == self.cycle(),
    {
        self.cycle
    }

    /// The calibration state by which the anchor converts.
    #[verifier::when_used_as_spec(spec_state)]
    pub fn state(&self) -> (r: CalibrationState)
        ensures
            r == self.state(),
    {
        self.state
    }
}

/// An instant is its cycle count: two instants with the same count are the
/// same instant.
pub proof fn lemma_instant_is_its_cycles(a: Instant, b: Instant)
    requires
        a.as_cycles() == b.as_cycles(),
    ensures
        a == b,
{
}

/// Under one anchor, unix time follows the cycle count: an instant that is
/// not before another has a unix time that is not before the other's.
pub proof fn lemma_unix_nanos_monotonic(anchor: Anchor, earlier: Instant, later: Instant)
    requires
        anchor.wf(),
        earlier.as_cycles() <= later.as_cycles(),
    ensures
        anchor.unix_nanos_of(earlier) <= anchor.unix_nanos_of(later),
{
    let base = anchor.cycle().as_cycles();
    let hz = anchor.cycles_per_second();
    if earlier.as_cycles() >= base {
        lemma_cycles_to_nanos_monotonic(
            hz,
            (earlier.as_cycles() - base) as u64,
            (later.as_cycles() - base) as u64,
        );
    } else if later.as_cycles() < base {
        lemma_cycles_to_nanos_monotonic(
            hz,
            (base - later.as_cycles()) as u64,
            (base - earlier.as_cycles()) as u64,
        );
    }
}

/// Under one anchor, unix time agrees with the time between instants: where
/// neither unix time is at an end of the 64-bit range, the two are as far
/// apart as the duration from the earlier instant to the later, to within
/// one nanosecond.
pub proof fn lemma_unix_nanos_agrees_with_duration(anchor: Anchor, earlier: Instant, later: Instant)
    requires
        anchor.wf(),
        earlier.as_cycles() <= later.as_cycles(),
        0 < anchor.unix_nanos_of(earlier),
        anchor.unix_nanos_of(later) < u64::MAX,
    ensures
        ({
            let apart = anchor.unix_nanos_of(later) - anchor.unix_nanos_of(earlier);
            let duration = nanos_from_to(
                anchor.cycles_per_second(),
                earlier.as_cycles(),
                later.as_cycles(),
            );
            duration - 1 <= apart <= duration + 1
        }),
{
    let base = anchor.cycle().as_cycles() as nat;
    let from = earlier.as_cycles() as nat;
    let to = later.as_cycles() as nat;
    let hz = anchor.cycles_per_second() as nat;
    let g = NANOS_PER_SECOND as nat;
    if from >= base {
        lemma_scale_floor_additive((from - base) as nat, (to - from) as nat, g, hz);
    } else if to < base {
        lemma_scale_floor_additive((base - to) as nat, (to - from) as nat, g, hz);
    } else {
        lemma_scale_floor_additive((base - from) as nat, (to - base) as nat, g, hz);
    }
}

/// Durations add up: the time from a first instant to a third, where it
/// fits in 64 bits, is the time from the first to a second in between plus
/// the time from the second to the third, or one nanosecond more.
pub proof fn lemma_durations_add_up(cycles_per_second: u64, first: u64, second: u64, third: u64)
    requires
        cycles_per_second > 0,
        first <= second <= third,
        nanos_from_to(cycles_per_second, first, third) < u64::MAX,
    ensures
        ({
            let whole = nanos_from_to(cycles_per_second, first, third);
            let parts = nanos_from_to(cycles_per_second, first, second) + nanos_from_to(
                cycles_per_second,
                second,
                third,
            );
            parts <= whole <= parts + 1
        }),
{
    lemma_scale_floor_additive(
        (second - first) as nat,
        (third - second) as nat,
        NANOS_PER_SECOND as nat,
        cycles_per_second as nat,
    );
}

} // verus!
