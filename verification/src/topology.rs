//! The cores that the process may use.
//!
//! The operating system answers the affinity query with a mask: one flag
//! for each core number, set where the process is allowed to run. The
//! cores to measure are the numbers of the set flags, in ascending order.
//! The numbers need not be contiguous. Where there is no such query the
//! first so many core numbers are taken instead, which is a weaker
//! footing: a core in that list may not exist.

use vstd::prelude::*;
use crate::error::MeasureError;

verus! {

/// The status with which the affinity calls of the operating system
/// report failure.
pub const AFFINITY_CALL_FAILED: i32 = -1;

/// Each core of the list has a larger number than the one before it.
pub open spec fn is_strictly_ascending(cores: Seq<usize>) -> bool {
    forall|i: int, j: int| 0 <= i < j < cores.len() ==> cores[i] < cores[j]
}

/// The list holds exactly the numbers of the flags that are set, in
/// ascending order.
pub open spec fn lists_mask(cores: Seq<usize>, mask: Seq<bool>) -> bool {
    &&& is_strictly_ascending(cores)
    &&& forall|k: int| 0 <= k < cores.len() ==> cores[k] < mask.len() && mask[cores[k] as int]
    &&& forall|c: int|
        0 <= c < mask.len() && mask[c] ==> exists|k: int| 0 <= k < cores.len() && cores[k] == c
}

/// The core numbers from zero up to, not including, `limit`.
pub open spec fn first_numbers(limit: int) -> Seq<usize> {
    Seq::new(limit as nat, |i: int| i as usize)
}

/// Only one list holds exactly the set flags of a mask in ascending
/// order.
pub proof fn lemma_listing_is_unique(a: Seq<usize>, b: Seq<usize>, mask: Seq<bool>)
    requires
        lists_mask(a, mask),
        lists_mask(b, mask),
    ensures
        a == b,
    decreases a.len() + b.len(),
{
    if a.len() == 0 {
        if b.len() > 0 {
            let c = b[0] as int;
            assert(mask[c]);
            let k = choose|k: int| 0 <= k < a.len() && a[k] == c;
        }
        assert(a =~= b);
    } else if b.len() == 0 {
        let c = a[0] as int;
        assert(mask[c]);
        let k = choose|k: int| 0 <= k < b.len() && b[k] == c;
    } else {
        // the largest set flag is the last member of either list
        let la = a.last() as int;
        let lb = b.last() as int;
        assert(mask[la] && mask[lb]);
        let ka = choose|k: int| 0 <= k < b.len() && b[k] == la;
        let kb = choose|k: int| 0 <= k < a.len() && a[k] == lb;
        assert(la == lb);
        let cut = mask.take(la);
        let a0 = a.drop_last();
        let b0 = b.drop_last();
        assert(lists_mask(a0, cut)) by {
            assert forall|c: int| 0 <= c < cut.len() && cut[c] implies exists|k: int|
                0 <= k < a0.len() && a0[k] == c by {
                let k = choose|k: int| 0 <= k < a.len() && a[k] == c;
                assert(a0[k] == c);
            }
        }
        assert(lists_mask(b0, cut)) by {
            assert forall|c: int| 0 <= c < cut.len() && cut[c] implies exists|k: int|
                0 <= k < b0.len() && b0[k] == c by {
                let k = choose|k: int| 0 <= k < b.len() && b[k] == c;
                assert(b0[k] == c);
            }
        }
        lemma_listing_is_unique(a0, b0, cut);
        assert(a =~= a0.push(a.last()));
        assert(b =~= b0.push(b.last()));
    }
}

/// The cores whose flag is set in the affinity mask, in ascending order.
pub fn cores_in_mask(mask: &Vec<bool>) -> (cores: Vec<usize>)
    ensures
        lists_mask(cores@, mask@),
{
    let mut cores: Vec<usize> = Vec::new();
    let mut c: usize = 0;
    while c < mask.len()
        invariant
            c <= mask.len(),
            lists_mask(cores@, mask@.take(c as int)),
        decreases mask.len() - c,
    {
        let ghost before = cores@;
        if mask[c] {
            cores.push(c);
        }
        proof {
            let cut = mask@.take(c as int);
            let next = mask@.take(c + 1);
            assert forall|x: int| 0 <= x < next.len() && next[x] implies exists|k: int|
                0 <= k < cores@.len() && cores@[k] == x by {
                if x < c {
                    assert(cut[x]);
                    let k = choose|k: int| 0 <= k < before.len() && before[k] == x;
                    assert(cores@[k] == x);
                } else {
                    assert(cores@[cores@.len() - 1] == x);
                }
            }
        }
        c += 1;
    }
    assert(mask@.take(mask.len() as int) =~= mask@);
    cores
}

/// The first `limit` core numbers: the list to fall back on where the
/// operating system has no affinity query.
pub fn first_cores(limit: usize) -> (cores: Vec<usize>)
    ensures
        cores@ == first_numbers(limit as int),
{
    let mut cores: Vec<usize> = Vec::new();
    let mut c: usize = 0;
    while c < limit
        invariant
            c <= limit,
            cores@ == first_numbers(c as int),
        decreases limit - c,
    {
        cores.push(c);
        c += 1;
    }
    cores
}

/// What the affinity query amounts to: the cores of the mask it filled
/// in, or the failure it reported.
pub fn probe_outcome(status: i32, mask: &Vec<bool>) -> (r: Result<Vec<usize>, MeasureError>)
    ensures
        status == AFFINITY_CALL_FAILED ==> r == Err::<Vec<usize>, MeasureError>(
            MeasureError::TopologyUnavailable,
        ),
        status != AFFINITY_CALL_FAILED ==> r is Ok && lists_mask(r->Ok_0@, mask@),
{
    if status == AFFINITY_CALL_FAILED {
        Err(MeasureError::TopologyUnavailable)
    } else {
        Ok(cores_in_mask(mask))
    }
}

/// What an attempt to bind a thread to a core amounts to. A thread that
/// is not where it should be must not measure anything.
pub fn pin_outcome(status: i32, core: usize) -> (r: Result<(), MeasureError>)
    ensures
        status == AFFINITY_CALL_FAILED ==> r == Err::<(), MeasureError>(
            MeasureError::PinFailure { core },
        ),
        status != AFFINITY_CALL_FAILED ==> r is Ok,
{
    if status == AFFINITY_CALL_FAILED {
        Err(MeasureError::PinFailure { core })
    } else {
        Ok(())
    }
}

} // verus!
