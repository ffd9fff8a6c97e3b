//! The latency matrices and their assembly, one core pair at a time.
//!
//! For a list of `n` cores the builder walks the pairs `(i, j)` with
//! `i < j` row by row, hands each pair out once, and writes the pair's
//! two latencies at `[i][j]` and `[j][i]` of the minimum and the average
//! matrix. What it hands over at the end are two square matrices with a
//! zero diagonal that read the same across the diagonal, the minimum
//! never above the average.

use vstd::prelude::*;

verus! {

/// Every row is as long as the matrix is high.
pub open spec fn is_square(m: Seq<Seq<u128>>) -> bool {
    forall|i: int| 0 <= i < m.len() ==> (#[trigger] m[i]).len() == m.len()
}

/// A core has no latency to itself.
pub open spec fn has_zero_diagonal(m: Seq<Seq<u128>>) -> bool {
    forall|i: int| 0 <= i < m.len() ==> (#[trigger] m[i])[i] == 0
}

/// The latency from `i` to `j` is the latency from `j` to `i`.
pub open spec fn is_symmetric(m: Seq<Seq<u128>>) -> bool {
    forall|i: int, j: int| 0 <= i < m.len() && 0 <= j < m.len() ==> #[trigger] m[i][j] == m[j][i]
}

/// What every latency matrix is: square, symmetric, zero on the diagonal.
pub open spec fn is_latency_matrix(m: Seq<Seq<u128>>) -> bool {
    is_square(m) && has_zero_diagonal(m) && is_symmetric(m)
}

/// No entry of `low` exceeds the entry of `high` at the same place.
pub open spec fn entrywise_at_most(low: Seq<Seq<u128>>, high: Seq<Seq<u128>>) -> bool {
    forall|i: int, j: int|
        0 <= i < low.len() && 0 <= j < low.len() ==> #[trigger] low[i][j] <= high[i][j]
}

/// The `n` by `n` matrix of zeros.
pub open spec fn zero_matrix(n: int) -> Seq<Seq<u128>> {
    Seq::new(n as nat, |i: int| Seq::new(n as nat, |j: int| 0u128))
}

/// The matrix with `value` written for the pair `(i, j)` in both
/// directions.
pub open spec fn with_pair(m: Seq<Seq<u128>>, i: int, j: int, value: u128) -> Seq<Seq<u128>> {
    m.update(i, m[i].update(j, value)).update(j, m[j].update(i, value))
}

/// The number of unordered pairs among `n` cores.
pub open spec fn pair_count(n: int) -> int {
    n * (n - 1) / 2
}

/// The number of pairs in the rows above row `i`: row `k` pairs core `k`
/// with each of the `n - 1 - k` cores after it.
pub open spec fn pairs_above(n: int, i: int) -> int
    decreases i,
{
    if i <= 0 {
        0
    } else {
        pairs_above(n, i - 1) + (n - i)
    }
}

/// The position of the pair `(i, j)`, `i < j`, in the order in which the
/// pairs of `n` cores are measured: row by row, and left to right within
/// a row.
pub open spec fn pair_rank(n: int, i: int, j: int) -> int {
    pairs_above(n, i) + (j - i - 1)
}

/// The first pair to measure, if there is any pair at all.
pub open spec fn first_pair(n: int) -> Option<(int, int)> {
    if n >= 2 {
        Some((0int, 1int))
    } else {
        None
    }
}

/// The pair to measure after `(i, j)`, if any is left.
pub open spec fn pair_after(n: int, i: int, j: int) -> Option<(int, int)> {
    if j + 1 < n {
        Some((i, j + 1))
    } else if i + 2 < n {
        Some((i + 1, i + 2))
    } else {
        None
    }
}

/// The rows above row `i` hold `i * (2n - i - 1) / 2` pairs.
pub proof fn lemma_pairs_above_closed_form(n: int, i: int)
    requires
        0 <= i <= n,
    ensures
        2 * pairs_above(n, i) == i * (2 * n - i - 1),
        0 <= pairs_above(n, i),
    decreases i,
{
    if i > 0 {
        lemma_pairs_above_closed_form(n, i - 1);
        assert(i * (2 * n - i - 1) == (i - 1) * (2 * n - (i - 1) - 1) + 2 * (n - i))
            by (nonlinear_arith);
    }
}

/// All rows together hold `n * (n - 1) / 2` pairs.
pub proof fn lemma_pair_count(n: int)
    requires
        0 <= n,
    ensures
        pairs_above(n, n) == pair_count(n),
        0 <= pair_count(n),
{
    lemma_pairs_above_closed_form(n, n);
}

/// The first pair has rank zero.
pub proof fn lemma_first_pair_rank(n: int)
    requires
        n >= 2,
    ensures
        pair_rank(n, 0, 1) == 0,
        pair_count(n) >= 1,
{
    assert(n * (n - 1) >= 2) by (nonlinear_arith)
        requires
            n >= 2,
    ;
}

/// Each pair's successor has the next rank, and the last pair's rank is
/// the number of pairs less one: the walk visits every pair exactly once.
pub proof fn lemma_pair_after_rank(n: int, i: int, j: int)
    requires
        0 <= i < j < n,
    ensures
        0 <= pair_rank(n, i, j) < pair_count(n),
        match pair_after(n, i, j) {
            Some((a, b)) => 0 <= a < b < n && pair_rank(n, a, b) == pair_rank(n, i, j) + 1,
            None => pair_rank(n, i, j) + 1 == pair_count(n),
        },
{
    lemma_pairs_above_closed_form(n, i);
    lemma_pairs_above_closed_form(n, i + 1);
    lemma_pair_count(n);
    lemma_pairs_above_grows(n, i + 1, n);
}

/// Lower rows have at least as many pairs above them.
pub proof fn lemma_pairs_above_grows(n: int, i: int, k: int)
    requires
        0 <= i <= k <= n,
    ensures
        pairs_above(n, i) <= pairs_above(n, k),
    decreases k - i,
{
    if i < k {
        lemma_pairs_above_grows(n, i, k - 1);
    }
}

/// Of two different pairs, the one that comes first row by row has the
/// smaller rank.
pub proof fn lemma_pair_rank_orders(n: int, i: int, j: int, a: int, b: int)
    requires
        0 <= i < j < n,
        0 <= a < b < n,
        i < a || (i == a && j < b),
    ensures
        pair_rank(n, i, j) < pair_rank(n, a, b),
{
    if i < a {
        lemma_pairs_above_grows(n, i + 1, a);
    }
}

/// An `n` by `n` table of latencies in nanoseconds.
#[derive(Debug)]
pub struct LatencyMatrix {
    rows: Vec<Vec<u128>>,
}

impl View for LatencyMatrix {
    type V = Seq<Seq<u128>>;

    closed spec fn view(&self) -> Seq<Seq<u128>> {
        Seq::new(self.rows@.len(), |i: int| self.rows@[i]@)
    }
}

impl LatencyMatrix {
    /// Square, symmetric, zero on the diagonal.
    pub open spec fn wf(&self) -> bool {
        is_latency_matrix(self@)
    }

    /// The matrix of zeros for `n` cores.
    pub fn zeros(n: usize) -> (m: LatencyMatrix)
        ensures
            m.wf(),
            m@ == zero_matrix(n as int),
    {
        let mut rows: Vec<Vec<u128>> = Vec::new();
        let mut i: usize = 0;
        while i < n
            invariant
                i <= n,
                rows@.len() == i,
                forall|a: int| 0 <= a < i ==> (#[trigger] rows@[a])@.len() == n,
                forall|a: int, b: int| 0 <= a < i && 0 <= b < n ==> #[trigger] rows@[a]@[b] == 0,
            decreases n - i,
        {
            let row: Vec<u128> = vec![0u128; n];
            rows.push(row);
            i += 1;
        }
        let m = LatencyMatrix { rows };
        assert(m@ =~~= zero_matrix(n as int));
        m
    }

    pub(crate) fn put_pair(&mut self, i: usize, j: usize, value: u128)
        requires
            old(self).wf(),
            i < j < old(self)@.len(),
        ensures
            final(self)@ == with_pair(old(self)@, i as int, j as int, value),
            final(self).wf(),
    {
        assert(old(self)@[i as int].len() == old(self)@.len());
        self.rows[i][j] = value;
        self.rows[j][i] = value;
        assert(self@ =~~= with_pair(old(self)@, i as int, j as int, value));
    }

    /// The number of rows, which is the number of columns.
    pub fn dimension(&self) -> (n: usize)
        ensures
            n == self@.len(),
    {
        self.rows.len()
    }

    /// The latency between the cores at positions `i` and `j` of the core
    /// list.
    pub fn get(&self, i: usize, j: usize) -> (value: u128)
        requires
            self.wf(),
            i < self@.len(),
            j < self@.len(),
        ensures
            value == self@[i as int][j as int],
    {
        assert(self@[i as int].len() == self@.len());
        self.rows[i][j]
    }
}

} // verus!
