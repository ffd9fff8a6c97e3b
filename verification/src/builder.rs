//! Assembly of the two latency matrices from the pairs' measurements.
//!
//! The builder decides which pair is measured next and where its result
//! goes. The measuring itself (two pinned threads and a clock) happens
//! elsewhere: whoever drives the builder asks for the next pair, measures
//! it, and hands the pair's latencies back. One pair is out at a time, so
//! no two measurements ever share the interconnect.

use vstd::prelude::*;
use crate::matrix::{
    entrywise_at_most, first_pair, is_latency_matrix, lemma_first_pair_rank,
    lemma_pair_after_rank, lemma_pair_count, lemma_pair_rank_orders, pair_after, pair_count,
    pair_rank, with_pair, zero_matrix, LatencyMatrix,
};
use crate::params::{MeasurementParameters, WARMUP_REPETITIONS};
use crate::reduce::{measured, per_round_avg, per_round_min, reduce, total_of, PairLatency};
use crate::topology::is_strictly_ascending;

verus! {

/// The mathematical state of an assembly in progress.
pub struct Assembly {
    /// The cores, in the order of the rows and columns.
    pub cores: Seq<usize>,
    pub min: Seq<Seq<u128>>,
    pub avg: Seq<Seq<u128>>,
    /// Positions in `cores` of the pair to measure next.
    pub next: Option<(int, int)>,
    /// How many pairs have been recorded.
    pub measured: int,
}

impl Assembly {
    /// Nothing measured yet.
    pub open spec fn start(cores: Seq<usize>) -> Assembly {
        Assembly {
            cores,
            min: zero_matrix(cores.len() as int),
            avg: zero_matrix(cores.len() as int),
            next: first_pair(cores.len() as int),
            measured: 0,
        }
    }

    /// The state after the pair that was due has been recorded with the
    /// given latencies. Once every pair is recorded nothing changes any
    /// more.
    pub open spec fn recorded(self, min: u128, avg: u128) -> Assembly {
        match self.next {
            Some((i, j)) => Assembly {
                cores: self.cores,
                min: with_pair(self.min, i, j, min),
                avg: with_pair(self.avg, i, j, avg),
                next: pair_after(self.cores.len() as int, i, j),
                measured: self.measured + 1,
            },
            None => self,
        }
    }

    /// Every pair has been recorded.
    pub open spec fn complete(self) -> bool {
        self.next is None
    }

    /// Both matrices are latency matrices for the cores, the minimum is
    /// nowhere above the average, the pair that is due is the one whose
    /// rank is the number of pairs recorded, and what has not been
    /// recorded yet reads zero.
    pub open spec fn wf(self) -> bool {
        let n = self.cores.len() as int;
        &&& self.min.len() == n && self.avg.len() == n
        &&& is_latency_matrix(self.min) && is_latency_matrix(self.avg)
        &&& entrywise_at_most(self.min, self.avg)
        &&& match self.next {
            Some((i, j)) => 0 <= i < j < n && self.measured == pair_rank(n, i, j),
            None => self.measured == pair_count(n),
        }
        &&& forall|i: int, j: int|
            #![trigger self.min[i][j]]
            #![trigger self.avg[i][j]]
            0 <= i < j < n && pair_rank(n, i, j) >= self.measured ==> self.min[i][j] == 0
                && self.avg[i][j] == 0
    }
}

/// An assembly that has recorded nothing is well formed.
pub proof fn lemma_start_wf(cores: Seq<usize>)
    ensures
        Assembly::start(cores).wf(),
{
    let n = cores.len() as int;
    if n >= 2 {
        lemma_first_pair_rank(n);
    } else {
        assert(n * (n - 1) == 0) by (nonlinear_arith)
            requires
                0 <= n < 2,
        ;
    }
}

/// Recording the pair that is due keeps the assembly well formed.
pub proof fn lemma_recorded_wf(a: Assembly, min: u128, avg: u128)
    requires
        a.wf(),
        min <= avg,
    ensures
        a.recorded(min, avg).wf(),
{
    let n = a.cores.len() as int;
    let b = a.recorded(min, avg);
    match a.next {
        Some((i, j)) => {
            lemma_pair_after_rank(n, i, j);
        },
        None => {},
    }
}

/// A finished assembly has recorded one measurement for each of the
/// `n * (n - 1) / 2` pairs, and an unfinished one has recorded fewer.
pub proof fn lemma_measured_counts_pairs(a: Assembly)
    requires
        a.wf(),
    ensures
        0 <= a.measured <= pair_count(a.cores.len() as int),
        a.complete() <==> a.measured == pair_count(a.cores.len() as int),
{
    let n = a.cores.len() as int;
    lemma_pair_count(n);
    match a.next {
        Some((i, j)) => {
            lemma_pair_after_rank(n, i, j);
        },
        None => {},
    }
}

/// The pair that the driver has to measure next.
#[derive(Debug, Clone, Copy, PartialEq, Eq, Structural)]
pub struct PairAssignment {
    /// Row of the pair in the matrices: position of the first core in the
    /// core list.
    pub row: usize,
    /// Column of the pair in the matrices: position of the second core
    /// in the core list.
    pub column: usize,
    /// The core that the responder thread is pinned to.
    pub responder_core: usize,
    /// The core that the initiator, the driving thread, is pinned to.
    pub initiator_core: usize,
}

/// What the renderer receives: the core list and the two finished
/// matrices.
#[derive(Debug)]
pub struct LatencyReport {
    cores: Vec<usize>,
    min: LatencyMatrix,
    avg: LatencyMatrix,
}

/// The mathematical content of a report.
pub struct ReportView {
    pub cores: Seq<usize>,
    pub min: Seq<Seq<u128>>,
    pub avg: Seq<Seq<u128>>,
}

impl View for LatencyReport {
    type V = ReportView;

    closed spec fn view(&self) -> ReportView {
        ReportView { cores: self.cores@, min: self.min@, avg: self.avg@ }
    }
}

impl LatencyReport {
    /// Both matrices have a row and a column for each core, in the order
    /// of the core list; both are latency matrices; the minimum is nowhere
    /// above the average.
    pub open spec fn wf(&self) -> bool {
        &&& self@.min.len() == self@.cores.len()
        &&& self@.avg.len() == self@.cores.len()
        &&& is_latency_matrix(self@.min)
        &&& is_latency_matrix(self@.avg)
        &&& entrywise_at_most(self@.min, self@.avg)
    }

    /// The cores that label the rows and columns, in order.
    pub fn cores(&self) -> (cores: &Vec<usize>)
        ensures
            cores@ == self@.cores,
    {
        &self.cores
    }

    /// The matrix of minimum latencies.
    pub fn min(&self) -> (m: &LatencyMatrix)
        ensures
            m@ == self@.min,
            self.wf() ==> m.wf(),
    {
        &self.min
    }

    /// The matrix of average latencies.
    pub fn avg(&self) -> (m: &LatencyMatrix)
        ensures
            m@ == self@.avg,
            self.wf() ==> m.wf(),
    {
        &self.avg
    }
}

/// Drives the measurement of all pairs and collects the results.
#[derive(Debug)]
pub struct MatrixBuilder {
    cores: Vec<usize>,
    min: LatencyMatrix,
    avg: LatencyMatrix,
    next: Option<(usize, usize)>,
    measured: u128,
}

impl View for MatrixBuilder {
    type V = Assembly;

    closed spec fn view(&self) -> Assembly {
        Assembly {
            cores: self.cores@,
            min: self.min@,
            avg: self.avg@,
            next: match self.next {
                Some((i, j)) => Some((i as int, j as int)),
                None => None,
            },
            measured: self.measured as int,
        }
    }
}

impl MatrixBuilder {
    /// Every builder that the library hands out is well formed.
    pub open spec fn wf(&self) -> bool {
        self@.wf()
    }

    /// A builder for the given cores with nothing measured yet. The order
    /// of the list is the order of the rows and columns.
    pub fn new(cores: Vec<usize>) -> (b: MatrixBuilder)
        ensures
            b@ == Assembly::start(cores@),
            b.wf(),
    {
        let n = cores.len();
        let next = if n >= 2 {
            Some((0usize, 1usize))
        } else {
            None
        };
        proof {
            lemma_start_wf(cores@);
        }
        MatrixBuilder {
            cores,
            min: LatencyMatrix::zeros(n),
            avg: LatencyMatrix::zeros(n),
            next,
            measured: 0,
        }
    }

    /// The cores, in the order of the rows and columns.
    pub fn cores(&self) -> (cores: &Vec<usize>)
        ensures
            cores@ == self@.cores,
    {
        &self.cores
    }

    /// Whether every pair has been recorded.
    pub fn is_complete(&self) -> (b: bool)
        ensures
            b == self@.complete(),
    {
        self.next.is_none()
    }

    /// How many pairs have been recorded.
    pub fn pairs_measured(&self) -> (k: u128)
        ensures
            k == self@.measured,
    {
        self.measured
    }

    /// The pair to measure next and the cores to pin its two threads to,
    /// or `None` when every pair has been recorded. Where the core list
    /// is in ascending order, as the list taken from an affinity mask is,
    /// the two threads of a pair never share a core.
    pub fn next_pair(&self) -> (r: Option<PairAssignment>)
        requires
            self.wf(),
        ensures
            match self@.next {
                Some((i, j)) => r == Some(
                    PairAssignment {
                        row: i as usize,
                        column: j as usize,
                        responder_core: self@.cores[i],
                        initiator_core: self@.cores[j],
                    },
                ),
                None => r is None,
            },
            r is Some && is_strictly_ascending(self@.cores) ==> r->Some_0.responder_core
                < r->Some_0.initiator_core,
    {
        match self.next {
            Some((i, j)) => Some(
                PairAssignment {
                    row: i,
                    column: j,
                    responder_core: self.cores[i],
                    initiator_core: self.cores[j],
                },
            ),
            None => None,
        }
    }

    /// Records the latencies of the pair that is due, in both directions
    /// and in both matrices, and moves on to the next pair. Returns whether
    /// a pair was due; when none was, nothing changes.
    pub fn record(&mut self, latency: PairLatency) -> (was_due: bool)
        requires
            old(self).wf(),
            latency.wf(),
        ensures
            final(self)@ == old(self)@.recorded(
                latency.min_ns() as u128,
                latency.avg_ns() as u128,
            ),
            final(self).wf(),
            was_due == !old(self)@.complete(),
    {
        let n = self.cores.len();
        proof {
            lemma_recorded_wf(self@, latency.min_ns() as u128, latency.avg_ns() as u128);
            lemma_measured_counts_pairs(self@);
            lemma_pair_count_fits(n as int);
        }
        match self.next {
            Some((i, j)) => {
                self.min.put_pair(i, j, latency.min());
                self.avg.put_pair(i, j, latency.avg());
                self.next = if j + 1 < n {
                    Some((i, j + 1))
                } else if i + 2 < n {
                    Some((i + 1, i + 2))
                } else {
                    None
                };
                self.measured = self.measured + 1;
                true
            },
            None => false,
        }
    }

    /// Hands over the finished matrices. There is no partial result: until
    /// every pair has been recorded the answer is `None`.
    pub fn finish(self) -> (r: Option<LatencyReport>)
        requires
            self.wf(),
        ensures
            self@.complete() ==> r is Some && r->Some_0.wf() && r->Some_0@ == (ReportView {
                cores: self@.cores,
                min: self@.min,
                avg: self@.avg,
            }),
            !self@.complete() ==> r is None,
    {
        if self.next.is_none() {
            Some(LatencyReport { cores: self.cores, min: self.min, avg: self.avg })
        } else {
            None
        }
    }
}

/// Builds the report for the given cores from the latencies of all their
/// pairs, listed in the order in which the pairs are measured. The list
/// has to hold one entry for each pair, no more and no fewer.
pub fn assemble(cores: Vec<usize>, latencies: &Vec<PairLatency>) -> (r: Option<LatencyReport>)
    requires
        forall|k: int| 0 <= k < latencies.len() ==> (#[trigger] latencies[k]).wf(),
    ensures
        latencies.len() != pair_count(cores.len() as int) ==> r is None,
        latencies.len() == pair_count(cores.len() as int) ==> r is Some && r->Some_0.wf()
            && r->Some_0@.cores == cores@ && placed_by_rank(
            r->Some_0@.min,
            r->Some_0@.avg,
            latencies@,
        ),
{
    let ghost n = cores.len() as int;
    let ghost ids = cores@;
    let mut builder = MatrixBuilder::new(cores);
    let mut k: usize = 0;
    assert forall|i: int, j: int| 0 <= i < j < n implies 0 <= #[trigger] pair_rank(n, i, j)
        < pair_count(n) by {
        lemma_pair_after_rank(n, i, j);
    }
    while k < latencies.len() && !builder.is_complete()
        invariant
            k <= latencies.len(),
            builder.wf(),
            builder@.cores == ids,
            ids.len() == n,
            builder@.measured == k,
            forall|k: int| 0 <= k < latencies.len() ==> (#[trigger] latencies[k]).wf(),
            forall|i: int, j: int|
                0 <= i < j < n ==> 0 <= #[trigger] pair_rank(n, i, j) < pair_count(n),
            forall|i: int, j: int|
                #![trigger builder@.min[i][j]]
                #![trigger builder@.avg[i][j]]
                0 <= i < j < n && pair_rank(n, i, j) < k ==> builder@.min[i][j]
                    == latencies@[pair_rank(n, i, j)].min_ns() && builder@.avg[i][j]
                    == latencies@[pair_rank(n, i, j)].avg_ns(),
        decreases latencies.len() - k,
    {
        let ghost before = builder@;
        let ghost (a, b) = before.next->Some_0;
        builder.record(latencies[k]);
        proof {
            assert forall|i: int, j: int|
                0 <= i < j < n && pair_rank(n, i, j) < k + 1 implies builder@.min[i][j]
                == latencies@[pair_rank(n, i, j)].min_ns() && builder@.avg[i][j]
                == latencies@[pair_rank(n, i, j)].avg_ns() by {
                if i < a || (i == a && j < b) {
                    lemma_pair_rank_orders(n, i, j, a, b);
                } else if i != a || j != b {
                    lemma_pair_rank_orders(n, a, b, i, j);
                }
            }
        }
        k += 1;
    }
    proof {
        lemma_measured_counts_pairs(builder@);
    }
    if k == latencies.len() {
        builder.finish()
    } else {
        None
    }
}

/// Each pair's entry above the diagonal holds the two latencies that the
/// timings at the pair's rank reduce to.
pub open spec fn reduced_by_rank(
    min: Seq<Seq<u128>>,
    avg: Seq<Seq<u128>>,
    timings: Seq<Vec<u128>>,
    rounds: int,
) -> bool {
    let n = min.len() as int;
    forall|i: int, j: int|
        #![trigger min[i][j]]
        #![trigger avg[i][j]]
        0 <= i < j < n ==> min[i][j] == per_round_min(timings[pair_rank(n, i, j)]@, rounds)
            && avg[i][j] == per_round_avg(timings[pair_rank(n, i, j)]@, rounds)
}

/// Builds the report for the given cores from the timings of all their
/// pairs, listed in the order in which the pairs are measured. Each entry
/// holds the times, in nanoseconds, of the outer repetitions of one pair,
/// the warm-up first. The list has to hold one entry for each pair.
pub fn report_from_timings(
    cores: Vec<usize>,
    timings: &Vec<Vec<u128>>,
    params: &MeasurementParameters,
) -> (r: Option<LatencyReport>)
    requires
        params.wf(),
        forall|k: int|
            0 <= k < timings.len() ==> (#[trigger] timings[k]).len() > WARMUP_REPETITIONS
                && total_of(measured(timings[k]@)) <= u128::MAX,
    ensures
        timings.len() != pair_count(cores.len() as int) ==> r is None,
        timings.len() == pair_count(cores.len() as int) ==> r is Some && r->Some_0.wf()
            && r->Some_0@.cores == cores@ && reduced_by_rank(
            r->Some_0@.min,
            r->Some_0@.avg,
            timings@,
            params.rounds(),
        ),
{
    let mut latencies: Vec<PairLatency> = Vec::new();
    let mut k: usize = 0;
    while k < timings.len()
        invariant
            k <= timings.len(),
            params.wf(),
            latencies@.len() == k,
            forall|k: int|
                0 <= k < timings.len() ==> (#[trigger] timings[k]).len() > WARMUP_REPETITIONS
                    && total_of(measured(timings[k]@)) <= u128::MAX,
            forall|x: int|
                0 <= x < k ==> (#[trigger] latencies@[x]).wf() && latencies@[x].min_ns()
                    == per_round_min(timings[x]@, params.rounds()) && latencies@[x].avg_ns()
                    == per_round_avg(timings[x]@, params.rounds()),
        decreases timings.len() - k,
    {
        latencies.push(reduce(&timings[k], params));
        k += 1;
    }
    let ghost n = cores.len() as int;
    proof {
        assert forall|i: int, j: int| 0 <= i < j < n implies 0 <= #[trigger] pair_rank(n, i, j)
            < pair_count(n) by {
            lemma_pair_after_rank(n, i, j);
        }
    }
    assemble(cores, &latencies)
}

/// Each pair's entry above the diagonal holds the latencies that the list
/// gives at the pair's rank.
pub open spec fn placed_by_rank(
    min: Seq<Seq<u128>>,
    avg: Seq<Seq<u128>>,
    latencies: Seq<PairLatency>,
) -> bool {
    let n = min.len() as int;
    forall|i: int, j: int|
        #![trigger min[i][j]]
        #![trigger avg[i][j]]
        0 <= i < j < n ==> min[i][j] == latencies[pair_rank(n, i, j)].min_ns() && avg[i][j]
            == latencies[pair_rank(n, i, j)].avg_ns()
}

/// A core has no latency to itself, in either matrix of a report.
pub proof fn lemma_report_diagonal_zero(report: LatencyReport, i: int)
    requires
        report.wf(),
        0 <= i < report@.cores.len(),
    ensures
        report@.min[i][i] == 0,
        report@.avg[i][i] == 0,
{
}

/// Either matrix of a report reads the same across the diagonal.
pub proof fn lemma_report_symmetric(report: LatencyReport, i: int, j: int)
    requires
        report.wf(),
        0 <= i < report@.cores.len(),
        0 <= j < report@.cores.len(),
    ensures
        report@.min[i][j] == report@.min[j][i],
        report@.avg[i][j] == report@.avg[j][i],
{
}

/// The minimum latency of a pair is never above its average latency.
pub proof fn lemma_report_min_at_most_avg(report: LatencyReport, i: int, j: int)
    requires
        report.wf(),
        0 <= i < report@.cores.len(),
        0 <= j < report@.cores.len(),
    ensures
        report@.min[i][j] <= report@.avg[i][j],
{
}

/// No latency in a report is negative.
pub proof fn lemma_report_non_negative(report: LatencyReport, i: int, j: int)
    requires
        report.wf(),
        0 <= i < report@.cores.len(),
        0 <= j < report@.cores.len(),
    ensures
        0 <= report@.min[i][j],
        0 <= report@.avg[i][j],
{
}

/// The number of pairs among as many cores as a list can hold fits the
/// counter of the builder.
pub proof fn lemma_pair_count_fits(n: int)
    requires
        0 <= n <= usize::MAX,
    ensures
        pair_count(n) < u128::MAX,
{
    assert(n * (n - 1) <= 0xffff_ffff_ffff_ffff * 0xffff_ffff_ffff_ffff) by (nonlinear_arith)
        requires
            0 <= n <= 0xffff_ffff_ffff_ffff,
    ;
}

} // verus!
