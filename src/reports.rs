//! The run-report directory: which files are reports, and which reports are
//! the most recent.

use vstd::prelude::*;

verus! {

/// Whether `s` ends with `suffix`.
pub open spec fn has_suffix(s: Seq<char>, suffix: Seq<char>) -> bool {
    s.len() >= suffix.len() && s.subrange(s.len() - suffix.len(), s.len() as int) == suffix
}

/// Relies on `str::ends_with` with a string pattern: whether the pattern
/// matches a suffix of the string.
#[verifier::external_body]
fn ends_with(s: &str, suffix: &str) -> (r: bool)
    ensures
        r == has_suffix(s@, suffix@),
{
    s.ends_with(suffix)
}

/// Whether a file name follows the run-report naming convention.
pub fn is_run_report_name(name: &str) -> (r: bool)
    ensures
        r == has_suffix(name@, ".summary.json"@),
{
    ends_with(name, ".summary.json")
}

/// How many reports a listing of recent runs holds when no limit is given.
pub const DEFAULT_RECENT_RUNS: usize = 5;

/// A modification time as a sort key; a file without one sorts below every
/// file that has one.
pub open spec fn mtime_key(m: Option<u64>) -> int {
    match m {
        None => -1,
        Some(t) => t as int,
    }
}

/// Report `i` is listed before report `j`: it was modified later, or at the
/// same time and it comes first in the directory listing.
pub open spec fn listed_before(ms: Seq<Option<u64>>, i: int, j: int) -> bool {
    mtime_key(ms[i]) > mtime_key(ms[j]) || (mtime_key(ms[i]) == mtime_key(ms[j]) && i < j)
}

/// Index `j` is among the reports taken in `r`.
pub open spec fn taken(r: Seq<usize>, j: int) -> bool {
    exists|a: int| 0 <= a < r.len() && r[a] == j
}

/// Every report taken in `r` is listed before report `j`.
pub open spec fn all_listed_before(ms: Seq<Option<u64>>, r: Seq<usize>, j: int) -> bool {
    forall|a: int| 0 <= a < r.len() ==> listed_before(ms, #[trigger] r[a] as int, j)
}

/// Report `c` may still be taken after the reports in `r`: it is listed
/// after the last of them.
pub open spec fn still_open(ms: Seq<Option<u64>>, r: Seq<usize>, c: int) -> bool {
    r.len() == 0 || listed_before(ms, r.last() as int, c)
}

fn comes_before(ms: &Vec<Option<u64>>, i: usize, j: usize) -> (r: bool)
    requires
        i < ms.len(),
        j < ms.len(),
    ensures
        r == listed_before(ms@, i as int, j as int),
{
    let ki: Option<u64> = ms[i];
    let kj: Option<u64> = ms[j];
    match (ki, kj) {
        (None, None) => i < j,
        (None, Some(_)) => false,
        (Some(_), None) => true,
        (Some(a), Some(b)) => a > b || (a == b && i < j),
    }
}

/// The indices of the most recent reports, newest first, given each report's
/// modification time: at most `limit` of them (five when no limit is given),
/// in the order of `listed_before`, and all of them when fewer exist. Every
/// report left out is listed after every report kept.
pub fn most_recent_runs(modified: &Vec<Option<u64>>, limit: Option<usize>) -> (r: Vec<usize>)
    ensures
        r@.len() <= match limit {
            Some(k) => k,
            None => DEFAULT_RECENT_RUNS,
        },
        forall|a: int| 0 <= a < r@.len() ==> #[trigger] r@[a] < modified@.len(),
        forall|a: int, b: int|
            0 <= a < b < r@.len() ==> listed_before(modified@, #[trigger] r@[a] as int, #[trigger] r@[b] as int),
        forall|j: int|
            0 <= j < modified@.len() ==> #[trigger] taken(r@, j) || (r@.len() == match limit {
                Some(k) => k,
                None => DEFAULT_RECENT_RUNS,
            } && all_listed_before(modified@, r@, j)),
{
    let k: usize = match limit {
        Some(k) => k,
        None => DEFAULT_RECENT_RUNS,
    };
    let n = modified.len();
    let mut r: Vec<usize> = Vec::new();
    let mut done = false;
    while r.len() < k && !done
        invariant
            r@.len() <= k,
            n == modified@.len(),
            forall|a: int| 0 <= a < r@.len() ==> #[trigger] r@[a] < n,
            forall|a: int, b: int|
                0 <= a < b < r@.len() ==> listed_before(modified@, #[trigger] r@[a] as int, #[trigger] r@[b] as int),
            forall|j: int|
                0 <= j < n ==> #[trigger] taken(r@, j) || (!done && all_listed_before(modified@, r@, j)),
        decreases k - r@.len() + if done {
            0int
        } else {
            1int
        },
    {
        // the earliest-listed report not taken yet
        let mut best: Option<usize> = None;
        let mut j: usize = 0;
        while j < n
            invariant
                j <= n,
                n == modified@.len(),
                r@.len() <= k,
                forall|a: int| 0 <= a < r@.len() ==> #[trigger] r@[a] < n,
                best.is_none() ==> forall|c: int| 0 <= c < j ==> !#[trigger] still_open(modified@, r@, c),
                best.is_some() ==> best.unwrap() < j && still_open(modified@, r@, best.unwrap() as int),
                best.is_some() ==> forall|c: int|
                    0 <= c < j && c != best.unwrap() ==> !#[trigger] still_open(modified@, r@, c)
                        || listed_before(modified@, best.unwrap() as int, c),
            decreases n - j,
        {
            let eligible = r.len() == 0 || comes_before(modified, r[r.len() - 1], j);
            assert(eligible == still_open(modified@, r@, j as int));
            if eligible {
                match best {
                    None => {
                        best = Some(j);
                    },
                    Some(b) => {
                        if comes_before(modified, j, b) {
                            best = Some(j);
                        }
                    },
                }
            }
            j += 1;
        }
        match best {
            None => {
                proof {
                    assert forall|c: int| 0 <= c < n implies #[trigger] taken(r@, c) by {
                        if !taken(r@, c) {
                            assert(!still_open(modified@, r@, c));
                            assert(all_listed_before(modified@, r@, c));
                            let last = r@.len() - 1;
                            assert(listed_before(modified@, r@[last] as int, c));
                        }
                    }
                }
                done = true;
            },
            Some(b) => {
                let ghost old_r = r@;
                r.push(b);
                proof {
                    assert forall|a: int| 0 <= a < old_r.len() implies old_r[a] != b by {
                        if old_r[a] == b {
                            let last = old_r.len() - 1;
                            if a < last {
                                assert(listed_before(modified@, old_r[a] as int, old_r[last] as int));
                            }
                        }
                    }
                    assert forall|a: int, c: int|
                        0 <= a < c < r@.len() implies listed_before(modified@, #[trigger] r@[a] as int, #[trigger] r@[c] as int) by {
                        if c == r@.len() - 1 {
                            let last = old_r.len() - 1;
                            assert(r@[a] == old_r[a]);
                            if a < last {
                                assert(listed_before(modified@, old_r[a] as int, old_r[last] as int));
                            }
                        } else {
                            assert(r@[a] == old_r[a] && r@[c] == old_r[c]);
                        }
                    }
                    assert forall|c: int| 0 <= c < n implies #[trigger] taken(r@, c) || (!done
                        && all_listed_before(modified@, r@, c)) by {
                        if c == b as int {
                            assert(r@[old_r.len() as int] == c);
                        } else if taken(old_r, c) {
                            let a = choose|a: int| 0 <= a < old_r.len() && #[trigger] old_r[a] == c;
                            assert(r@[a] == c);
                        } else {
                            assert(all_listed_before(modified@, old_r, c));
                            if old_r.len() > 0 {
                                assert(listed_before(modified@, old_r[old_r.len() - 1] as int, c));
                            }
                            assert(still_open(modified@, old_r, c));
                            assert(listed_before(modified@, b as int, c));
                            assert forall|a: int| 0 <= a < r@.len() implies listed_before(modified@, #[trigger] r@[a] as int, c) by {
                                if a < old_r.len() {
                                    assert(r@[a] == old_r[a]);
                                } else {
                                    if old_r.len() > 0 {
                                        let last = old_r.len() - 1;
                                        assert(listed_before(modified@, old_r[last] as int, c));
                                    }
                                }
                            }
                        }
                    }
                }
            },
        }
    }
    r
}

} // verus!
