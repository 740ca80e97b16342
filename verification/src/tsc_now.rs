//! The calibration state of a process and what is computed from it: the
//! origin of the cycle count, the current cycle, and the conversion between
//! cycles and nanoseconds.

use crate::arith::{
    lemma_scale_floor_bounds, lemma_scale_floor_monotonic, mul_div_ceil, mul_div_floor, saturate,
    scale_ceil, scale_floor, NANOS_PER_SECOND,
};
use crate::calibration::{cycles_between, nanos_between, Calibrator, Sample};
use vstd::arithmetic::div_mod::lemma_fundamental_div_mod_converse;
use vstd::prelude::*;

verus! {

/// What calibration establishes, once, for the life of a process: the
/// frequency of the cycle counter, and the counter value that stands for the
/// moment at which calibration began.
///
/// A state is made by [`CalibrationState::new`] and never changes. Its
/// frequency is never zero.
#[derive(Clone, Copy, Debug)]
pub struct CalibrationState {
    cycles_per_second: u64,
    cycle_origin_offset: u64,
}

/// The estimated number of cycles between the wall-clock reading `anchor` and
/// the later reading `last_monotonic`, at `cycles_per_second`: rounded up and
/// saturated to 64 bits.
pub open spec fn cycles_flown(cycles_per_second: u64, anchor: u64, last_monotonic: u64) -> u64 {
    saturate(
        scale_ceil(
            cycles_per_second as nat,
            nanos_between(anchor, last_monotonic) as nat,
            NANOS_PER_SECOND as nat,
        ),
    )
}

/// The counter value that stands for the wall-clock reading `anchor`, given
/// that the counter read `last_tsc` when the wall clock read
/// `last_monotonic`: `last_tsc` less the cycles flown since the anchor,
/// modulo 2^64.
pub open spec fn spec_origin_offset(
    cycles_per_second: u64,
    anchor: u64,
    last_monotonic: u64,
    last_tsc: u64,
) -> u64 {
    cycles_between(cycles_flown(cycles_per_second, anchor, last_monotonic), last_tsc)
}

/// The whole nanoseconds that `cycles` ticks take at `cycles_per_second`,
/// saturated to 64 bits.
pub open spec fn cycles_to_nanos(cycles_per_second: u64, cycles: u64) -> u64
    recommends
        cycles_per_second > 0,
{
    saturate(scale_floor(cycles as nat, NANOS_PER_SECOND as nat, cycles_per_second as nat))
}

/// The whole ticks that a counter at `cycles_per_second` makes in `nanos`
/// nanoseconds, saturated to 64 bits.
pub open spec fn nanos_to_cycles(cycles_per_second: u64, nanos: u64) -> u64 {
    saturate(scale_floor(nanos as nat, cycles_per_second as nat, NANOS_PER_SECOND as nat))
}

impl CalibrationState {
    /// The frequency of the counter in cycles per second.
    pub closed spec fn spec_cycles_per_second(&self) -> u64 {
        self.cycles_per_second
    }

    /// The counter value at which the cycle count of this process is zero.
    pub closed spec fn spec_cycle_origin_offset(&self) -> u64 {
        self.cycle_origin_offset
    }

    /// A state is well formed when its frequency is not zero. Every state
    /// that a program holds is well formed.
    #[verifier::type_invariant]
    pub open spec fn wf(&self) -> bool {
        self.cycles_per_second() > 0
    }

    /// Makes the state from a frequency and an origin. There is no state
    /// with a frequency of zero.
    pub fn new(cycles_per_second: u64, cycle_origin_offset: u64) -> (r: Option<CalibrationState>)
        ensures
            r is None <==> cycles_per_second == 0,
            r matches Some(state) ==> state.wf() && state.cycles_per_second() == cycles_per_second
                && state.cycle_origin_offset() == cycle_origin_offset,
    {
        if cycles_per_second == 0 {
            None
        } else {
            Some(CalibrationState { cycles_per_second, cycle_origin_offset })
        }
    }

    /// The frequency of the counter in cycles per second.
    #[verifier::when_used_as_spec(spec_cycles_per_second)]
    pub fn cycles_per_second(&self) -> (r: u64)
        ensures
            r == self.cycles_per_second(),
    {
        self.cycles_per_second
    }

    /// The counter value at which the cycle count of this process is zero.
    #[verifier::when_used_as_spec(spec_cycle_origin_offset)]
    pub fn cycle_origin_offset(&self) -> (r: u64)
        ensures
            r == self.cycle_origin_offset(),
    {
        self.cycle_origin_offset
    }

    /// Converts a number of elapsed cycles to a duration in whole
    /// nanoseconds, rounded down.
    ///
    /// The result saturates at the largest 64-bit value. At a frequency of
    /// one gigahertz or more it never does: there are then no more
    /// nanoseconds than cycles.
    pub fn cycles_to_duration(&self, delta_cycles: u64) -> (nanos: u64)
        ensures
            nanos == cycles_to_nanos(self.cycles_per_second(), delta_cycles),
            self.cycles_per_second() >= NANOS_PER_SECOND ==> nanos <= delta_cycles && nanos
                == scale_floor(
                delta_cycles as nat,
                NANOS_PER_SECOND as nat,
                self.cycles_per_second() as nat,
            ),
    {
        proof {
            use_type_invariant(self);
            if self.cycles_per_second() >= NANOS_PER_SECOND {
                lemma_nanos_fit(self.cycles_per_second(), delta_cycles);
            }
        }
        mul_div_floor(delta_cycles, NANOS_PER_SECOND, self.cycles_per_second)
    }

    /// Converts a duration in nanoseconds to a number of whole cycles,
    /// rounded down. The result saturates at the largest 64-bit value.
    pub fn duration_to_cycles(&self, nanos: u64) -> (cycles: u64)
        ensures
            cycles == nanos_to_cycles(self.cycles_per_second(), nanos),
    {
        mul_div_floor(nanos, self.cycles_per_second, NANOS_PER_SECOND)
    }
}

/// Pairs a wall-clock reading with the counter reading taken right after it.
pub fn monotonic_with_tsc(monotonic_nanos: u64, tsc: u64) -> (r: Sample)
    ensures
        r.monotonic_nanos == monotonic_nanos,
        r.tsc == tsc,
{
    Sample { monotonic_nanos, tsc }
}

/// The cycle count of a process at the raw counter value `tsc`: the cycles
/// since the origin of `state`, modulo 2^64.
///
/// A counter value below the origin, as another core may give, counts as a
/// very large number of cycles.
pub fn current_cycle(state: &CalibrationState, tsc: u64) -> (r: u64)
    ensures
        r == cycles_between(state.cycle_origin_offset(), tsc),
{
    tsc.wrapping_sub(state.cycle_origin_offset())
}

/// Measures the frequency of the counter from a recorded stream of samples.
///
/// Returns what the first sample that completes a measurement gives:
/// (1) cycles per second, (2) the wall-clock reading of that sample and (3)
/// its counter reading. Returns nothing where the stream ends before the
/// measurement is complete.
pub fn _cycles_per_sec(samples: &Vec<Sample>) -> (r: Option<(u64, u64, u64)>)
    ensures
        r == Calibrator::initial().first_measurement(samples@),
{
    let mut calibrator = Calibrator::new();
    let mut i: usize = 0;
    assert(samples@.skip(0) =~= samples@);
    while i < samples.len()
        invariant
            i <= samples.len(),
            Calibrator::initial().first_measurement(samples@) == calibrator.first_measurement(
                samples@.skip(i as int),
            ),
        decreases samples.len() - i,
    {
        let ghost rest = samples@.skip(i as int);
        assert(rest.skip(1) =~= samples@.skip(i + 1));
        let measurement = calibrator.feed(samples[i]);
        if measurement.is_some() {
            return measurement;
        }
        i += 1;
    }
    None
}

/// Computes the origin of the cycle count: the counter value that stands for
/// the wall-clock reading `anchor`, given a frequency and one paired sample.
///
/// The cycle count at `last_tsc` is then the estimated number of cycles
/// between `anchor` and `last_monotonic`.
pub fn origin_offset(cycles_per_second: u64, anchor: u64, last_monotonic: u64, last_tsc: u64) -> (r:
    u64)
    ensures
        r == spec_origin_offset(cycles_per_second, anchor, last_monotonic, last_tsc),
        cycles_between(r, last_tsc) == cycles_flown(cycles_per_second, anchor, last_monotonic),
{
    let nanos_from_anchor: u64 = last_monotonic.saturating_sub(anchor);
    let flown: u64 = mul_div_ceil(cycles_per_second, nanos_from_anchor, NANOS_PER_SECOND);
    last_tsc.wrapping_sub(flown)
}

/// Calibrates from a recorded stream of samples, with `anchor` the
/// wall-clock reading at which calibration began.
///
/// Returns (1) cycles per second and (2) the origin of the cycle count.
/// Subtracting the origin from a raw counter value gives a cycle count that
/// begins at zero at the anchor, on every core that shares the frequency.
/// Returns nothing where the stream ends before the measurement is complete.
pub fn cycles_per_sec(anchor: u64, samples: &Vec<Sample>) -> (r: Option<(u64, u64)>)
    ensures
        r == match Calibrator::initial().first_measurement(samples@) {
            Some((cycles_per_second, last_monotonic, last_tsc)) => Some(
                (
                    cycles_per_second,
                    spec_origin_offset(cycles_per_second, anchor, last_monotonic, last_tsc),
                ),
            ),
            None => None,
        },
{
    match _cycles_per_sec(samples) {
        Some((cycles_per_second, last_monotonic, last_tsc)) => Some(
            (cycles_per_second, origin_offset(cycles_per_second, anchor, last_monotonic, last_tsc)),
        ),
        None => None,
    }
}

/// Calibrates from a recorded stream of samples and makes the state of the
/// process, with `anchor` the wall-clock reading at which calibration began.
///
/// Returns nothing where the stream ends before the measurement is complete,
/// or where the frequency that it measures rounds to zero.
pub fn init(anchor: u64, samples: &Vec<Sample>) -> (r: Option<CalibrationState>)
    ensures
        r is Some <==> (Calibrator::initial().first_measurement(samples@) matches Some(m) && m.0
            > 0),
        r matches Some(state) ==> {
            let m = Calibrator::initial().first_measurement(samples@).unwrap();
            &&& state.wf()
            &&& state.cycles_per_second() == m.0
            &&& state.cycle_origin_offset() == spec_origin_offset(m.0, anchor, m.1, m.2)
        },
{
    match cycles_per_sec(anchor, samples) {
        Some((cycles_per_second, cycle_origin_offset)) => CalibrationState::new(
            cycles_per_second,
            cycle_origin_offset,
        ),
        None => None,
    }
}

/// At a frequency of one gigahertz or more a duration has no more
/// nanoseconds than cycles, so the conversion of any 64-bit cycle count is
/// exact to the nanosecond.
pub proof fn lemma_nanos_fit(cycles_per_second: u64, cycles: u64)
    requires
        cycles_per_second >= NANOS_PER_SECOND,
    ensures
        scale_floor(cycles as nat, NANOS_PER_SECOND as nat, cycles_per_second as nat) <= cycles,
{
    let q = scale_floor(cycles as nat, NANOS_PER_SECOND as nat, cycles_per_second as nat);
    lemma_scale_floor_bounds(cycles as nat, NANOS_PER_SECOND as nat, cycles_per_second as nat);
    assert(q <= cycles) by (nonlinear_arith)
        requires
            q * cycles_per_second <= cycles * NANOS_PER_SECOND,
            cycles_per_second >= NANOS_PER_SECOND,
            NANOS_PER_SECOND > 0,
    ;
}

/// A counter that ticks at exactly the calibrated frequency keeps the time
/// of the wall clock: where it makes `cycles` ticks in `nanos` nanoseconds,
/// the ticks convert to those nanoseconds, and the nanoseconds to those
/// ticks.
pub proof fn lemma_exact_counter_keeps_time(cycles_per_second: u64, cycles: u64, nanos: u64)
    requires
        cycles_per_second > 0,
        cycles * NANOS_PER_SECOND == cycles_per_second * nanos,
    ensures
        cycles_to_nanos(cycles_per_second, cycles) == nanos,
        nanos_to_cycles(cycles_per_second, nanos) == cycles,
{
    assert(nanos * cycles_per_second == cycles * NANOS_PER_SECOND) by (nonlinear_arith)
        requires
            cycles * NANOS_PER_SECOND == cycles_per_second * nanos,
    ;
    lemma_fundamental_div_mod_converse(
        cycles * NANOS_PER_SECOND,
        cycles_per_second as int,
        nanos as int,
        0,
    );
    lemma_fundamental_div_mod_converse(
        nanos * cycles_per_second,
        NANOS_PER_SECOND as int,
        cycles as int,
        0,
    );
}

/// More cycles never convert to fewer nanoseconds.
pub proof fn lemma_cycles_to_nanos_monotonic(cycles_per_second: u64, fewer: u64, more: u64)
    requires
        cycles_per_second > 0,
        fewer <= more,
    ensures
        cycles_to_nanos(cycles_per_second, fewer) <= cycles_to_nanos(cycles_per_second, more),
{
    lemma_scale_floor_monotonic(
        fewer as nat,
        more as nat,
        NANOS_PER_SECOND as nat,
        cycles_per_second as nat,
    );
}

/// Converting cycles to nanoseconds and back never gains cycles, and where
/// the nanoseconds fit in 64 bits it loses less than the cycles of one
/// nanosecond and one more: at a frequency of up to one gigahertz, at most
/// one cycle.
pub proof fn lemma_round_trip(cycles_per_second: u64, cycles: u64)
    requires
        cycles_per_second > 0,
    ensures
        ({
            let back = nanos_to_cycles(
                cycles_per_second,
                cycles_to_nanos(cycles_per_second, cycles),
            );
            let fits = scale_floor(
                cycles as nat,
                NANOS_PER_SECOND as nat,
                cycles_per_second as nat,
            ) <= u64::MAX;
            &&& back <= cycles
            &&& fits ==> (cycles - back) * NANOS_PER_SECOND <= NANOS_PER_SECOND + cycles_per_second
                - 2
            &&& fits && cycles_per_second <= NANOS_PER_SECOND ==> cycles - back <= 1
        }),
{
    let g = NANOS_PER_SECOND as nat;
    let c = cycles_per_second as nat;
    let x = cycles as nat;
    let exact = scale_floor(x, g, c);
    let n = cycles_to_nanos(cycles_per_second, cycles) as nat;
    let y = scale_floor(n, c, g);
    lemma_scale_floor_bounds(x, g, c);
    lemma_scale_floor_bounds(n, c, g);
    assert(n * c <= exact * c) by (nonlinear_arith)
        requires
            n <= exact,
    ;
    assert(y <= x) by (nonlinear_arith)
        requires
            y * g <= n * c,
            n * c <= x * g,
            g > 0,
    ;
    if exact <= u64::MAX {
        assert((x - y) * g <= g + c - 2) by (nonlinear_arith)
            requires
                x * g < n * c + c,
                n * c < y * g + g,
        ;
        if c <= g {
            assert(x - y <= 1) by (nonlinear_arith)
                requires
                    (x - y) * g <= g + c - 2,
                    c <= g,
                    g > 0,
            ;
        }
    }
}

/// The cycle count follows the counter: of two counter values on the same
/// side of the origin, the later has the later cycle count, and the two
/// counts are as far apart as the two values.
pub proof fn lemma_current_cycle_monotonic(origin: u64, earlier: u64, later: u64)
    requires
        earlier <= later,
        origin <= earlier || later < origin,
    ensures
        cycles_between(origin, earlier) <= cycles_between(origin, later),
        cycles_between(origin, later) - cycles_between(origin, earlier) == later - earlier,
{
}

} // verus!
