//! Log retention: which of the existing log files must be deleted so that
//! at most a fixed number of the newest ones remain.
//!
//! The caller lists the files with their creation times and removes the
//! files at the returned indices; all file handling stays with the caller.

use vstd::prelude::*;

verus! {

/// Whether entry `j` is newer than entry `i`: a later time wins, and a
/// tie is broken towards the higher index.
pub open spec fn newer(times: Seq<i64>, i: int, j: int) -> bool {
    times[j] > times[i] || (times[j] == times[i] && j > i)
}

/// How many of the first `n` entries are newer than entry `i`.
pub open spec fn rank_upto(times: Seq<i64>, i: int, n: int) -> int
    decreases n,
{
    if n <= 0 {
        0
    } else {
        rank_upto(times, i, n - 1) + if newer(times, i, n - 1) {
            1int
        } else {
            0int
        }
    }
}

/// How many entries are newer than entry `i`.
pub open spec fn rank(times: Seq<i64>, i: int) -> int {
    rank_upto(times, i, times.len() as int)
}

/// The indices among the first `n` whose entries are stale: at least
/// `keep` other entries are newer.
pub open spec fn stale_upto(times: Seq<i64>, keep: int, n: int) -> Seq<int>
    decreases n,
{
    if n <= 0 {
        Seq::empty()
    } else {
        let pre = stale_upto(times, keep, n - 1);
        if rank(times, n - 1) >= keep {
            pre.push(n - 1)
        } else {
            pre
        }
    }
}

/// The indices of the stale entries, in increasing order.
pub open spec fn stale(times: Seq<i64>, keep: int) -> Seq<int> {
    stale_upto(times, keep, times.len() as int)
}

/// The number of entries newer than entry `i`.
fn rank_of(times: &Vec<i64>, i: usize) -> (r: usize)
    requires
        i < times@.len(),
    ensures
        r == rank(times@, i as int),
{
    let n = times.len();
    let ti = times[i];
    let mut r: usize = 0;
    let mut j: usize = 0;
    while j < n
        invariant
            n == times@.len(),
            i < n,
            j <= n,
            ti == times@[i as int],
            r == rank_upto(times@, i as int, j as int),
            r <= j,
        decreases n - j,
    {
        let tj = times[j];
        if tj > ti || (tj == ti && j > i) {
            r = r + 1;
        }
        j = j + 1;
    }
    r
}

/// The indices of the log files to delete, in increasing order: exactly
/// those with at least `keep` newer files, so that the `keep` newest
/// files (ties broken towards later listing order) remain.
pub fn stale_log_indices(times: &Vec<i64>, keep: usize) -> (r: Vec<usize>)
    ensures
        r@.map(|t: int, x: usize| x as int) == stale(times@, keep as int),
{
    let n = times.len();
    let mut r: Vec<usize> = Vec::new();
    let mut i: usize = 0;
    while i < n
        invariant
            n == times@.len(),
            i <= n,
            r@.map(|t: int, x: usize| x as int) == stale_upto(times@, keep as int, i as int),
        decreases n - i,
    {
        let ghost r0 = r@;
        if rank_of(times, i) >= keep {
            r.push(i);
        }
        proof {
            if rank(times@, i as int) >= keep {
                assert(r@ =~= r0.push(i));
            }
            assert(r@.map(|t: int, x: usize| x as int) =~= stale_upto(
                times@,
                keep as int,
                i + 1,
            ));
        }
        i = i + 1;
    }
    r
}

} // verus!
