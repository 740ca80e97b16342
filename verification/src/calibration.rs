//! The calibration engine: measures the frequency of a cycle counter against a
//! wall clock from a stream of paired samples.
//!
//! The engine never reads a clock. The caller takes the samples and feeds
//! them in one at a time; the engine says, after each one, whether the
//! measurement is complete.

use crate::arith::{lemma_product_fits, saturate, NANOS_PER_SECOND};
use vstd::arithmetic::div_mod::{
    lemma_fundamental_div_mod, lemma_fundamental_div_mod_converse, lemma_mod_bound,
};
use vstd::prelude::*;

verus! {

/// A window is closed by the first sample that is more than this many
/// nanoseconds of wall-clock time after the sample that opened it.
pub const WINDOW_NANOS: u64 = 10_000_000;

/// Two frequency estimates agree when they differ, relative to the newer one,
/// by less than one part in this many.
pub const TOLERANCE_PARTS: u64 = 1_000_000;

/// A wall-clock reading and a counter reading taken one right after the other.
///
/// The two readings are not atomic with respect to each other, so the pairing
/// is approximate.
#[derive(Clone, Copy, Debug, PartialEq, Eq, Structural)]
pub struct Sample {
    /// Wall-clock time in nanoseconds since an origin that the caller fixes.
    pub monotonic_nanos: u64,
    /// Raw value of the cycle counter.
    pub tsc: u64,
}

/// A frequency estimate taken over one window: `cycles` ticks of the counter
/// in `nanos` nanoseconds of wall-clock time, which is a frequency of
/// `cycles * 1e9 / nanos` hertz. The estimate is kept as this exact ratio.
#[derive(Clone, Copy, Debug, PartialEq, Eq, Structural)]
pub struct Candidate {
    pub cycles: u64,
    pub nanos: u64,
}

/// Wall-clock time from `earlier` to `later`, zero where `later` is not after
/// `earlier`.
pub open spec fn nanos_between(earlier: u64, later: u64) -> u64 {
    if later >= earlier {
        (later - earlier) as u64
    } else {
        0
    }
}

/// The number of ticks from counter value `earlier` to counter value `later`,
/// modulo 2^64.
pub open spec fn cycles_between(earlier: u64, later: u64) -> u64 {
    if later >= earlier {
        (later - earlier) as u64
    } else {
        (later - earlier + 0x1_0000_0000_0000_0000) as u64
    }
}

impl Candidate {
    /// Whether this estimate is within tolerance of an older one:
    /// `|new - old| / new < 1 / TOLERANCE_PARTS` over the exact ratios.
    ///
    /// With `new = a / b` and `old = p / q` the condition is
    /// `|a * q - p * b| * TOLERANCE_PARTS < a * q`, which is how it is stated
    /// here. An estimate of zero hertz is within tolerance of nothing.
    pub open spec fn within_tolerance_of(self, old: Candidate) -> bool {
        let scaled_new = self.cycles * old.nanos;
        let scaled_old = old.cycles * self.nanos;
        let gap = if scaled_new >= scaled_old {
            scaled_new - scaled_old
        } else {
            scaled_old - scaled_new
        };
        gap * TOLERANCE_PARTS < scaled_new
    }

    /// The estimate in hertz, rounded to the nearest integer, halves upwards.
    pub open spec fn nearest_hz(self) -> nat
        recommends
            self.nanos > 0,
    {
        ((2 * self.cycles * NANOS_PER_SECOND + self.nanos) / (2 * self.nanos)) as nat
    }

    /// Decides whether this estimate is within tolerance of `old`.
    pub fn agrees_with(&self, old: &Candidate) -> (r: bool)
        ensures
            r == self.within_tolerance_of(*old),
    {
        proof {
            lemma_product_fits(self.cycles, old.nanos);
            lemma_product_fits(old.cycles, self.nanos);
        }
        let scaled_new: u128 = (self.cycles as u128) * (old.nanos as u128);
        let scaled_old: u128 = (old.cycles as u128) * (self.nanos as u128);
        let gap: u128 = if scaled_new >= scaled_old {
            scaled_new - scaled_old
        } else {
            scaled_old - scaled_new
        };
        let whole: u128 = scaled_new / (TOLERANCE_PARTS as u128);
        let rest: u128 = scaled_new % (TOLERANCE_PARTS as u128);
        assert(scaled_new == whole * 1_000_000 + rest && rest < 1_000_000
            && gap * TOLERANCE_PARTS == gap * 1_000_000) by (nonlinear_arith)
            requires
                TOLERANCE_PARTS == 1_000_000,
                whole == scaled_new / (TOLERANCE_PARTS as u128),
                rest == scaled_new % (TOLERANCE_PARTS as u128),
        ;
        gap < whole || (gap == whole && rest > 0)
    }

    /// The estimate in hertz, rounded to the nearest integer and saturated to
    /// 64 bits.
    pub fn cycles_per_second(&self) -> (r: u64)
        requires
            self.nanos > 0,
        ensures
            r == saturate(self.nearest_hz()),
    {
        assert(self.cycles * NANOS_PER_SECOND <= 0xffff_ffff_ffff_ffff * 1_000_000_000)
            by (nonlinear_arith)
            requires
                self.cycles <= 0xffff_ffff_ffff_ffff,
                NANOS_PER_SECOND == 1_000_000_000,
        ;
        let scaled: u128 = (self.cycles as u128) * (NANOS_PER_SECOND as u128);
        let doubled: u128 = 2 * scaled + (self.nanos as u128);
        let quotient: u128 = doubled / (2 * (self.nanos as u128));
        if quotient > u64::MAX as u128 {
            u64::MAX
        } else {
            quotient as u64
        }
    }
}

/// The state of a measurement between two samples.
///
/// A measurement is a sequence of windows. A window is opened by one sample
/// and closed by the first later sample that lies more than [`WINDOW_NANOS`]
/// of wall-clock time after it; the two samples give one [`Candidate`]. The
/// sample after a closing one opens the next window. The measurement is
/// complete when a window closes whose candidate is within tolerance of the
/// candidate of the window before it.
#[derive(Clone, Copy, Debug, PartialEq, Eq, Structural)]
pub struct Calibrator {
    /// The sample that opened the current window; `None` where the next
    /// sample is to open one.
    pub window: Option<Sample>,
    /// The candidate of the last window that closed.
    pub previous: Option<Candidate>,
}

impl Calibrator {
    /// The state before the first sample.
    pub open spec fn initial() -> Calibrator {
        Calibrator { window: None, previous: None }
    }

    /// Whether `sample` closes the current window.
    pub open spec fn closes_window(self, sample: Sample) -> bool {
        self.window matches Some(first)
            && nanos_between(first.monotonic_nanos, sample.monotonic_nanos) > WINDOW_NANOS
    }

    /// The candidate that the current window gives if `sample` closes it.
    pub open spec fn candidate(self, sample: Sample) -> Candidate
        recommends
            self.window is Some,
    {
        Candidate {
            cycles: cycles_between(self.window.unwrap().tsc, sample.tsc),
            nanos: nanos_between(self.window.unwrap().monotonic_nanos, sample.monotonic_nanos),
        }
    }

    /// Whether `sample` completes the measurement: it closes the current
    /// window, and the window's candidate is within tolerance of the previous
    /// one.
    pub open spec fn completes(self, sample: Sample) -> bool {
        &&& self.closes_window(sample)
        &&& self.previous matches Some(previous)
        &&& self.candidate(sample).within_tolerance_of(previous)
    }

    /// What `sample` yields: nothing, or, where it completes the measurement,
    /// the frequency in cycles per second with the two readings of `sample`.
    pub open spec fn measurement(self, sample: Sample) -> Option<(u64, u64, u64)> {
        if self.completes(sample) {
            Some(
                (
                    saturate(self.candidate(sample).nearest_hz()),
                    sample.monotonic_nanos,
                    sample.tsc,
                ),
            )
        } else {
            None
        }
    }

    /// The state after `sample`.
    pub open spec fn after(self, sample: Sample) -> Calibrator {
        if self.window is None {
            Calibrator { window: Some(sample), previous: self.previous }
        } else if self.closes_window(sample) {
            Calibrator { window: None, previous: Some(self.candidate(sample)) }
        } else {
            self
        }
    }

    /// The state after each of `samples` in turn.
    pub open spec fn after_all(self, samples: Seq<Sample>) -> Calibrator
        decreases samples.len(),
    {
        if samples.len() == 0 {
            self
        } else {
            self.after(samples[0]).after_all(samples.skip(1))
        }
    }

    /// What a recorded stream of samples yields when it is fed in order,
    /// starting in this state: the measurement of the first sample that
    /// completes one, or nothing where none does.
    pub open spec fn first_measurement(self, samples: Seq<Sample>) -> Option<(u64, u64, u64)>
        decreases samples.len(),
    {
        if samples.len() == 0 {
            None
        } else if self.completes(samples[0]) {
            self.measurement(samples[0])
        } else {
            self.after(samples[0]).first_measurement(samples.skip(1))
        }
    }

    /// Starts a measurement.
    pub fn new() -> (r: Calibrator)
        ensures
            r == Calibrator::initial(),
    {
        Calibrator { window: None, previous: None }
    }

    /// Takes in one sample. Returns the measurement where the sample
    /// completes it: the frequency in cycles per second, and the wall-clock
    /// and counter readings of that last sample.
    ///
    /// The first window that closes never completes a measurement, since it
    /// has no candidate before it. A calibrator that is fed on after a
    /// measurement goes on measuring: the next window is held against the
    /// one that completed it.
    pub fn feed(&mut self, sample: Sample) -> (r: Option<(u64, u64, u64)>)
        ensures
            *final(self) == old(self).after(sample),
            r == old(self).measurement(sample),
            old(self).previous is None ==> r is None,
    {
        match self.window {
            None => {
                self.window = Some(sample);
                None
            },
            Some(first) => {
                let elapsed: u64 = sample.monotonic_nanos.saturating_sub(first.monotonic_nanos);
                if elapsed > WINDOW_NANOS {
                    let candidate = Candidate {
                        cycles: sample.tsc.wrapping_sub(first.tsc),
                        nanos: elapsed,
                    };
                    let converged = match self.previous {
                        Some(previous) => candidate.agrees_with(&previous),
                        None => false,
                    };
                    self.window = None;
                    self.previous = Some(candidate);
                    if converged {
                        Some((candidate.cycles_per_second(), sample.monotonic_nanos, sample.tsc))
                    } else {
                        None
                    }
                } else {
                    None
                }
            },
        }
    }
}

/// The measurement of a stream is that of the earliest sample that completes
/// one: where sample `k` completes a measurement in the state that the
/// samples before it lead to, and no earlier sample does in its state, the
/// stream yields the measurement of sample `k`.
pub proof fn lemma_first_measurement_is_earliest(state: Calibrator, samples: Seq<Sample>, k: int)
    requires
        0 <= k < samples.len(),
        state.after_all(samples.take(k)).completes(samples[k]),
        forall|j: int|
            0 <= j < k ==> !(#[trigger] state.after_all(samples.take(j))).completes(samples[j]),
    ensures
        state.first_measurement(samples) == state.after_all(samples.take(k)).measurement(
            samples[k],
        ),
    decreases k,
{
    assert(samples.take(0) =~= Seq::<Sample>::empty());
    assert(state.after_all(samples.take(0)) == state);
    if k > 0 {
        let next = state.after(samples[0]);
        let rest = samples.skip(1);
        assert forall|j: int| 0 <= j <= k - 1 implies #[trigger] next.after_all(rest.take(j))
            == state.after_all(samples.take(j + 1)) by {
            assert(samples.take(j + 1)[0] == samples[0]);
            assert(samples.take(j + 1).skip(1) =~= rest.take(j));
        }
        assert forall|j: int| 0 <= j < k - 1 implies !(#[trigger] next.after_all(
            rest.take(j),
        )).completes(rest[j]) by {
            assert(!state.after_all(samples.take(j + 1)).completes(samples[j + 1]));
        }
        lemma_first_measurement_is_earliest(next, rest, k - 1);
    }
}

/// A stream in which no sample completes a measurement yields none.
pub proof fn lemma_no_measurement(state: Calibrator, samples: Seq<Sample>)
    requires
        forall|j: int|
            0 <= j < samples.len() ==> !(#[trigger] state.after_all(samples.take(j))).completes(
                samples[j],
            ),
    ensures
        state.first_measurement(samples) is None,
    decreases samples.len(),
{
    if samples.len() > 0 {
        assert(samples.take(0) =~= Seq::<Sample>::empty());
        assert(state.after_all(samples.take(0)) == state);
        let next = state.after(samples[0]);
        let rest = samples.skip(1);
        assert forall|j: int| 0 <= j < rest.len() implies !(#[trigger] next.after_all(
            rest.take(j),
        )).completes(rest[j]) by {
            assert(samples.take(j + 1)[0] == samples[0]);
            assert(samples.take(j + 1).skip(1) =~= rest.take(j));
            assert(!state.after_all(samples.take(j + 1)).completes(samples[j + 1]));
        }
        lemma_no_measurement(next, rest);
    }
}

/// Feeding a stream in two parts yields what feeding it whole yields: the
/// measurement of the first part where it has one, else that of the second
/// part fed in the state that the first part leads to.
pub proof fn lemma_first_measurement_in_parts(
    state: Calibrator,
    head: Seq<Sample>,
    tail: Seq<Sample>,
)
    ensures
        state.first_measurement(head + tail) == if state.first_measurement(head) is Some {
            state.first_measurement(head)
        } else {
            state.after_all(head).first_measurement(tail)
        },
    decreases head.len(),
{
    if head.len() == 0 {
        assert(head + tail =~= tail);
    } else {
        assert((head + tail)[0] == head[0]);
        assert((head + tail).skip(1) =~= head.skip(1) + tail);
        if !state.completes(head[0]) {
            lemma_first_measurement_in_parts(state.after(head[0]), head.skip(1), tail);
        }
    }
}

/// The rounded frequency is the integer nearest to the exact ratio `x` of the
/// candidate: `f <= x + 1/2 < f + 1`, stated without division.
pub proof fn lemma_nearest_hz_is_nearest(candidate: Candidate)
    requires
        candidate.nanos > 0,
    ensures
        2 * candidate.nearest_hz() * candidate.nanos <= 2 * candidate.cycles * NANOS_PER_SECOND
            + candidate.nanos,
        2 * candidate.cycles * NANOS_PER_SECOND + candidate.nanos < 2 * (candidate.nearest_hz()
            + 1) * candidate.nanos,
{
    let numerator = 2 * candidate.cycles * NANOS_PER_SECOND + candidate.nanos;
    let denominator = 2 * candidate.nanos;
    lemma_fundamental_div_mod(numerator, denominator);
    lemma_mod_bound(numerator, denominator);
    let f = numerator / denominator;
    assert(denominator * f == 2 * f * candidate.nanos) by (nonlinear_arith)
        requires
            denominator == 2 * candidate.nanos,
    ;
    assert(2 * (f + 1) * candidate.nanos == 2 * f * candidate.nanos + denominator)
        by (nonlinear_arith)
        requires
            denominator == 2 * candidate.nanos,
    ;
}

/// The rounded frequency is zero exactly where the counter made less than
/// half a tick per second over the window.
pub proof fn lemma_nearest_hz_positive(candidate: Candidate)
    requires
        candidate.nanos > 0,
    ensures
        candidate.nearest_hz() > 0 <==> 2 * candidate.cycles * NANOS_PER_SECOND >= candidate.nanos,
{
    lemma_nearest_hz_is_nearest(candidate);
    let f = candidate.nearest_hz();
    let n = candidate.nanos;
    if f > 0 {
        assert(2 * f * n >= 2 * n) by (nonlinear_arith)
            requires
                f >= 1,
                n > 0,
        ;
    } else {
        assert(2 * (f + 1) * n == 2 * n) by (nonlinear_arith)
            requires
                f == 0,
        ;
    }
}

/// A window averages out the skew between the two readings of a sample.
/// Where the counter ticks at `hz` cycles per second and the cycles counted
/// over a window are off by at most `skew` cycles, the rounded frequency is
/// off by at most a hundred hertz for each cycle of skew: a window is longer
/// than a hundredth of a second.
pub proof fn lemma_window_bounds_the_error(candidate: Candidate, hz: nat, skew: nat)
    requires
        candidate.nanos > WINDOW_NANOS,
        candidate.cycles * NANOS_PER_SECOND <= hz * candidate.nanos + skew * NANOS_PER_SECOND,
        hz * candidate.nanos <= candidate.cycles * NANOS_PER_SECOND + skew * NANOS_PER_SECOND,
    ensures
        candidate.nearest_hz() <= hz + 100 * skew,
        hz <= candidate.nearest_hz() + 100 * skew,
{
    lemma_nearest_hz_is_nearest(candidate);
    let f = candidate.nearest_hz() as int;
    let n = candidate.nanos as int;
    let c = candidate.cycles as int;
    let g = NANOS_PER_SECOND as int;
    let h = hz as int;
    let s = skew as int;
    assert(f <= h + 100 * s) by (nonlinear_arith)
        requires
            2 * f * n <= 2 * c * g + n,
            c * g <= h * n + s * g,
            n > 10_000_000,
            g == 1_000_000_000,
            s >= 0,
            f >= 0,
            h >= 0,
    {
        if f >= h + 100 * s + 1 {
            assert(f * n >= (h + 100 * s + 1) * n);
            assert((h + 100 * s + 1) * n == h * n + 100 * s * n + n);
            assert(100 * s * n >= s * g);
        }
    }
    assert(h <= f + 100 * s) by (nonlinear_arith)
        requires
            2 * c * g + n < 2 * (f + 1) * n,
            h * n <= c * g + s * g,
            n > 10_000_000,
            g == 1_000_000_000,
            s >= 0,
            f >= 0,
            h >= 0,
    {
        if h >= f + 100 * s + 1 {
            assert(h * n >= (f + 100 * s + 1) * n);
            assert((f + 100 * s + 1) * n == f * n + 100 * s * n + n);
            assert(100 * s * n >= s * g);
        }
    }
}

/// A candidate whose ratio is a whole number of hertz rounds to that number.
pub proof fn lemma_exact_candidate(candidate: Candidate, hz: nat)
    requires
        candidate.nanos > 0,
        candidate.cycles * NANOS_PER_SECOND == hz * candidate.nanos,
    ensures
        candidate.nearest_hz() == hz,
{
    let numerator = 2 * candidate.cycles * NANOS_PER_SECOND + candidate.nanos;
    let denominator = 2 * candidate.nanos;
    assert(numerator == hz * denominator + candidate.nanos) by (nonlinear_arith)
        requires
            numerator == 2 * candidate.cycles * NANOS_PER_SECOND + candidate.nanos,
            denominator == 2 * candidate.nanos,
            candidate.cycles * NANOS_PER_SECOND == hz * candidate.nanos,
    ;
    lemma_fundamental_div_mod_converse(
        numerator,
        denominator,
        hz as int,
        candidate.nanos as int,
    );
}

/// Two candidates with the same whole, positive number of hertz as their
/// ratio are within tolerance of each other.
pub proof fn lemma_exact_candidates_agree(new: Candidate, old: Candidate, hz: nat)
    requires
        hz > 0,
        new.nanos > 0,
        old.nanos > 0,
        new.cycles * NANOS_PER_SECOND == hz * new.nanos,
        old.cycles * NANOS_PER_SECOND == hz * old.nanos,
    ensures
        new.within_tolerance_of(old),
{
    let a = new.cycles as int;
    let b = new.nanos as int;
    let p = old.cycles as int;
    let q = old.nanos as int;
    let g = NANOS_PER_SECOND as int;
    assert(a * q == p * b && a * q > 0) by (nonlinear_arith)
        requires
            hz > 0,
            b > 0,
            q > 0,
            a >= 0,
            p >= 0,
            g == 1_000_000_000,
            a * g == hz * b,
            p * g == hz * q,
    {
        assert(a * q * g == hz * b * q);
        assert(p * b * g == hz * q * b);
        assert((a * q - p * b) * g == 0);
        assert(a * g > 0);
    }
}

/// Whether `sample` is a reading of a counter that ticks at exactly `hz`
/// cycles per second and once read as `origin`: the counter has advanced by
/// `hz` cycles for each second of wall-clock time between the two.
pub open spec fn ticks_at(hz: nat, origin: Sample, sample: Sample) -> bool {
    (sample.tsc - origin.tsc) * NANOS_PER_SECOND == hz * (sample.monotonic_nanos
        - origin.monotonic_nanos)
}

impl Calibrator {
    /// Whether all that the state holds comes from a counter that ticks at
    /// exactly `hz` cycles per second and once read as `origin`.
    pub open spec fn tracks(self, hz: nat, origin: Sample) -> bool {
        &&& self.window matches Some(first) ==> ticks_at(hz, origin, first)
        &&& self.previous matches Some(previous) ==> previous.nanos > 0 && previous.cycles
            * NANOS_PER_SECOND == hz * previous.nanos
    }
}

/// One step on a counter that ticks at exactly `hz` cycles per second: the
/// state goes on tracking the counter, every window after the first completes
/// the measurement, and a completed measurement is `hz` exactly.
pub proof fn lemma_exact_counter_step(state: Calibrator, sample: Sample, hz: u64, origin: Sample)
    requires
        hz > 0,
        state.tracks(hz as nat, origin),
        ticks_at(hz as nat, origin, sample),
    ensures
        state.after(sample).tracks(hz as nat, origin),
        state.closes_window(sample) && state.previous is Some ==> state.completes(sample),
        state.measurement(sample) matches Some(m) ==> m.0 == hz,
{
    if state.closes_window(sample) {
        let first = state.window.unwrap();
        let candidate = state.candidate(sample);
        let dt = sample.monotonic_nanos - first.monotonic_nanos;
        let dc = sample.tsc - first.tsc;
        let g = NANOS_PER_SECOND as int;
        assert(dc * g == hz * dt && dc > 0) by (nonlinear_arith)
            requires
                hz > 0,
                dt > 0,
                g == 1_000_000_000,
                dc == sample.tsc - first.tsc,
                dt == sample.monotonic_nanos - first.monotonic_nanos,
                (sample.tsc - origin.tsc) * g == hz * (sample.monotonic_nanos
                    - origin.monotonic_nanos),
                (first.tsc - origin.tsc) * g == hz * (first.monotonic_nanos
                    - origin.monotonic_nanos),
        ;
        lemma_exact_candidate(candidate, hz as nat);
        if state.previous is Some {
            lemma_exact_candidates_agree(candidate, state.previous.unwrap(), hz as nat);
        }
    }
}

/// Calibration is exact on an exact counter: fed with readings of a counter
/// that ticks at exactly `hz` cycles per second, a measurement that completes
/// gives `hz`.
pub proof fn lemma_exact_counter_is_measured_exactly(
    state: Calibrator,
    samples: Seq<Sample>,
    hz: u64,
    origin: Sample,
)
    requires
        hz > 0,
        state.tracks(hz as nat, origin),
        forall|i: int|
            0 <= i < samples.len() ==> ticks_at(hz as nat, origin, #[trigger] samples[i]),
    ensures
        state.first_measurement(samples) matches Some(m) ==> m.0 == hz,
        state.after_all(samples).tracks(hz as nat, origin),
    decreases samples.len(),
{
    if samples.len() > 0 {
        lemma_exact_counter_step(state, samples[0], hz, origin);
        let rest = samples.skip(1);
        assert forall|i: int| 0 <= i < rest.len() implies ticks_at(
            hz as nat,
            origin,
            #[trigger] rest[i],
        ) by {
            assert(rest[i] == samples[i + 1]);
        }
        lemma_exact_counter_is_measured_exactly(state.after(samples[0]), rest, hz, origin);
    }
}

} // verus!
