//! Reduction of the timings of one core pair to its two latencies.
//!
//! The initiator times every outer repetition of the handshake. The first
//! repetition pays for thread placement and cold caches, so it is left out;
//! the rest are reduced to the smallest and to the mean round trip, each
//! divided by the number of rounds and halved to estimate one direction.

use vstd::prelude::*;
use vstd::arithmetic::div_mod::{lemma_div_is_ordered, lemma_div_multiples_vanish};
use vstd::arithmetic::mul::lemma_mul_is_distributive_add_other_way;
use crate::params::{MeasurementParameters, WARMUP_REPETITIONS};

verus! {

/// The timings that count: everything after the warm-up repetition.
pub open spec fn measured(elapsed: Seq<u128>) -> Seq<u128> {
    if elapsed.len() > WARMUP_REPETITIONS {
        elapsed.skip(WARMUP_REPETITIONS as int)
    } else {
        Seq::empty()
    }
}

/// The sum of a sequence of timings.
pub open spec fn total_of(s: Seq<u128>) -> int
    decreases s.len(),
{
    if s.len() == 0 {
        0
    } else {
        total_of(s.drop_last()) + s.last()
    }
}

/// The smallest timing of a sequence; the largest representable value
/// stands for "none" when the sequence is empty.
pub open spec fn least_of(s: Seq<u128>) -> int
    decreases s.len(),
{
    if s.len() == 0 {
        u128::MAX as int
    } else if s.last() < least_of(s.drop_last()) {
        s.last() as int
    } else {
        least_of(s.drop_last())
    }
}

/// One-way latency estimated from the fastest measured repetition.
pub open spec fn per_round_min(elapsed: Seq<u128>, rounds: int) -> int {
    least_of(measured(elapsed)) / rounds / 2
}

/// One-way latency estimated from the mean of the measured repetitions.
pub open spec fn per_round_avg(elapsed: Seq<u128>, rounds: int) -> int {
    (total_of(measured(elapsed)) / (measured(elapsed).len() as int)) / rounds / 2
}

/// The two one-way latencies of a core pair, in nanoseconds.
#[derive(Debug, Clone, Copy)]
pub struct PairLatency {
    min: u128,
    avg: u128,
}

impl PairLatency {
    /// The latency derived from the fastest repetition.
    pub closed spec fn min_ns(&self) -> int {
        self.min as int
    }

    /// The latency derived from the mean repetition.
    pub closed spec fn avg_ns(&self) -> int {
        self.avg as int
    }

    /// The fastest repetition is never slower than the mean.
    pub open spec fn wf(&self) -> bool {
        0 <= self.min_ns() <= self.avg_ns() <= u128::MAX
    }

    /// Pairs up two latencies, provided the minimum does not exceed the
    /// average.
    pub fn new(min: u128, avg: u128) -> (r: Option<PairLatency>)
        ensures
            min <= avg ==> r is Some && r->Some_0.wf() && r->Some_0.min_ns() == min
                && r->Some_0.avg_ns() == avg,
            min > avg ==> r is None,
    {
        if min <= avg {
            Some(PairLatency { min, avg })
        } else {
            None
        }
    }

    /// The latency derived from the fastest repetition.
    pub fn min(&self) -> (v: u128)
        ensures
            v == self.min_ns(),
    {
        self.min
    }

    /// The latency derived from the mean repetition.
    pub fn avg(&self) -> (v: u128)
        ensures
            v == self.avg_ns(),
    {
        self.avg
    }
}

/// `least_of` names a member of the sequence that no member undercuts.
pub proof fn lemma_least_is_minimum(s: Seq<u128>)
    requires
        s.len() > 0,
    ensures
        exists|i: int| 0 <= i < s.len() && s[i] == least_of(s),
        forall|i: int| 0 <= i < s.len() ==> least_of(s) <= s[i],
    decreases s.len(),
{
    let front = s.drop_last();
    if front.len() == 0 {
        assert(s[0] == least_of(s));
    } else {
        lemma_least_is_minimum(front);
        let w = choose|i: int| 0 <= i < front.len() && front[i] == least_of(front);
        if s.last() < least_of(front) {
            assert(s[s.len() - 1] == least_of(s));
        } else {
            assert(s[w] == least_of(s));
        }
        assert forall|i: int| 0 <= i < s.len() implies least_of(s) <= s[i] by {
            if i < front.len() {
                assert(front[i] == s[i]);
            }
        }
    }
}

/// The sum is at least as large as the smallest member taken once for
/// every member.
pub proof fn lemma_total_at_least_count_times_least(s: Seq<u128>)
    requires
        s.len() > 0,
    ensures
        s.len() * least_of(s) <= total_of(s),
    decreases s.len(),
{
    let front = s.drop_last();
    if front.len() == 0 {
        assert(total_of(front) == 0);
    } else {
        lemma_total_at_least_count_times_least(front);
        let m = least_of(s);
        assert(front.len() * m <= front.len() * least_of(front)) by (nonlinear_arith)
            requires
                m <= least_of(front),
                front.len() >= 0,
        ;
        assert(s.len() * m == front.len() * m + m) by {
            lemma_mul_is_distributive_add_other_way(m, front.len() as int, 1);
        }
    }
}

/// A prefix never sums to more than the whole.
pub proof fn lemma_total_of_prefix(s: Seq<u128>, k: int)
    requires
        0 <= k <= s.len(),
    ensures
        0 <= total_of(s.take(k)) <= total_of(s),
    decreases s.len() - k,
{
    if k == s.len() {
        assert(s.take(k) =~= s);
        lemma_total_nonnegative(s);
    } else {
        lemma_total_of_prefix(s, k + 1);
        lemma_total_nonnegative(s.take(k));
        assert(s.take(k + 1).drop_last() =~= s.take(k));
    }
}

/// Timings are unsigned, so their sum is not negative.
pub proof fn lemma_total_nonnegative(s: Seq<u128>)
    ensures
        0 <= total_of(s),
    decreases s.len(),
{
    if s.len() > 0 {
        lemma_total_nonnegative(s.drop_last());
    }
}

/// The latency taken from the fastest repetition never exceeds the one
/// taken from the mean, whatever was measured.
pub proof fn lemma_min_at_most_avg(elapsed: Seq<u128>, rounds: int)
    requires
        elapsed.len() > WARMUP_REPETITIONS,
        rounds >= 1,
    ensures
        0 <= per_round_min(elapsed, rounds) <= per_round_avg(elapsed, rounds),
{
    let s = measured(elapsed);
    let k = s.len() as int;
    let m = least_of(s);
    let t = total_of(s);
    lemma_least_is_minimum(s);
    lemma_total_at_least_count_times_least(s);
    assert(m <= t / k) by {
        lemma_div_multiples_vanish(m, k);
        lemma_div_is_ordered(k * m, t, k);
    }
    lemma_div_is_ordered(0, m, rounds);
    lemma_div_is_ordered(m, t / k, rounds);
    lemma_div_is_ordered(0, m / rounds, 2);
    lemma_div_is_ordered(m / rounds, (t / k) / rounds, 2);
}

/// Adds up the measured repetitions, or reports that the sum does not fit
/// the machine's widest integer.
pub fn total_elapsed(elapsed: &Vec<u128>) -> (r: Option<u128>)
    ensures
        total_of(measured(elapsed@)) <= u128::MAX ==> r == Some(
            total_of(measured(elapsed@)) as u128,
        ),
        total_of(measured(elapsed@)) > u128::MAX ==> r is None,
{
    let ghost s = measured(elapsed@);
    let mut sum: u128 = 0;
    let mut i: usize = WARMUP_REPETITIONS;
    if elapsed.len() <= WARMUP_REPETITIONS {
        return Some(0);
    }
    while i < elapsed.len()
        invariant
            WARMUP_REPETITIONS <= i <= elapsed.len(),
            s == measured(elapsed@),
            s.len() == elapsed.len() - WARMUP_REPETITIONS,
            sum == total_of(s.take(i - WARMUP_REPETITIONS)),
        decreases elapsed.len() - i,
    {
        let ghost k = i - WARMUP_REPETITIONS;
        proof {
            assert(s.take(k + 1).drop_last() =~= s.take(k));
            lemma_total_of_prefix(s, k + 1);
        }
        match sum.checked_add(elapsed[i]) {
            Some(next) => {
                sum = next;
            },
            None => {
                return None;
            },
        }
        i += 1;
    }
    assert(s.take(s.len() as int) =~= s);
    Some(sum)
}

/// Reduces the timings of the outer repetitions of one pair to its
/// minimum and average one-way latency.
///
/// `elapsed[r]` is the wall-clock time, in nanoseconds, that repetition
/// `r` took for all its rounds. Repetition 0 is discarded.
pub fn reduce(elapsed: &Vec<u128>, params: &MeasurementParameters) -> (r: PairLatency)
    requires
        params.wf(),
        elapsed.len() > WARMUP_REPETITIONS,
        total_of(measured(elapsed@)) <= u128::MAX,
    ensures
        r.min_ns() == per_round_min(elapsed@, params.rounds()),
        r.avg_ns() == per_round_avg(elapsed@, params.rounds()),
        r.wf(),
{
    let ghost s = measured(elapsed@);
    let mut least: u128 = u128::MAX;
    let mut sum: u128 = 0;
    let mut i: usize = WARMUP_REPETITIONS;
    while i < elapsed.len()
        invariant
            WARMUP_REPETITIONS <= i <= elapsed.len(),
            s == measured(elapsed@),
            s.len() == elapsed.len() - WARMUP_REPETITIONS,
            total_of(s) <= u128::MAX,
            sum == total_of(s.take(i - WARMUP_REPETITIONS)),
            least == least_of(s.take(i - WARMUP_REPETITIONS)),
        decreases elapsed.len() - i,
    {
        let ghost k = i - WARMUP_REPETITIONS;
        proof {
            assert(s.take(k + 1).drop_last() =~= s.take(k));
            lemma_total_of_prefix(s, k + 1);
        }
        let sample = elapsed[i];
        if sample < least {
            least = sample;
        }
        sum = sum + sample;
        i += 1;
    }
    assert(s.take(s.len() as int) =~= s);
    let count = (elapsed.len() - WARMUP_REPETITIONS) as u128;
    let rounds = params.sample_count() as u128;
    proof {
        lemma_min_at_most_avg(elapsed@, params.rounds());
    }
    PairLatency { min: least / rounds / 2, avg: (sum / count) / rounds / 2 }
}

} // verus!
