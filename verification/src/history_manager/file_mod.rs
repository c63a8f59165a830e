//! Search over the modification times of commit files.

use vstd::prelude::*;

use super::error::{LogHistoryError, NearestTimestamp};
use super::search::Bound;
use super::{CommitAt, ParsedLogPath, Timestamp};

verus! {

/// The next timestamp, unless there is none.
pub open spec fn saturating_next(timestamp: int) -> int {
    if timestamp < i64::MAX {
        timestamp + 1
    } else {
        timestamp
    }
}

/// The monotonized timestamp of commit `i`: its file's modification time, pushed past the
/// monotonized timestamp of the commit before it.
pub open spec fn monotonized(commits: Seq<ParsedLogPath>, i: int) -> int
    decreases i + 1,
{
    if i < 0 {
        i64::MIN as int
    } else {
        let floor = saturating_next(monotonized(commits, i - 1));
        let raw = commits[i].location.last_modified as int;
        if raw >= floor {
            raw
        } else {
            floor
        }
    }
}

/// Whether commit `i` is the one that `bound` asks for: the last one at or before `timestamp`, or
/// the first one at or after it.
pub open spec fn is_file_mod_bound(
    commits: Seq<ParsedLogPath>,
    timestamp: Timestamp,
    bound: Bound,
    i: int,
) -> bool {
    &&& 0 <= i < commits.len()
    &&& match bound {
        Bound::GreatestLower => {
            &&& monotonized(commits, i) <= timestamp
            &&& forall|j: int|
                i < j < commits.len() ==> #[trigger] monotonized(commits, j) > timestamp
        },
        Bound::LeastUpper => {
            &&& monotonized(commits, i) >= timestamp
            &&& forall|j: int| 0 <= j < i ==> #[trigger] monotonized(commits, j) < timestamp
        },
    }
}

/// The hint given when no commit is on the asked side of a timestamp.
pub open spec fn file_mod_nearest(commits: Seq<ParsedLogPath>, bound: Bound) -> NearestTimestamp {
    if commits.len() == 0 {
        NearestTimestamp::Unknown
    } else {
        match bound {
            Bound::GreatestLower => NearestTimestamp::Earliest(commits[0].location.last_modified),
            Bound::LeastUpper => NearestTimestamp::Latest(
                monotonized(commits, commits.len() - 1) as i64,
            ),
        }
    }
}

/// What a search over file modification times answers.
pub open spec fn file_mod_outcome(
    commits: Seq<ParsedLogPath>,
    timestamp: Timestamp,
    bound: Bound,
    r: Result<CommitAt, LogHistoryError>,
) -> bool {
    match r {
        Ok(commit) => exists|i: int| #[trigger]
            is_file_mod_bound(commits, timestamp, bound, i) && commit.version == commits[i].version
                && commit.timestamp == monotonized(commits, i),
        Err(error) => {
            &&& forall|i: int| !#[trigger] is_file_mod_bound(commits, timestamp, bound, i)
            &&& error == (LogHistoryError::TimestampOutOfRange {
                timestamp,
                bound,
                nearest_timestamp: file_mod_nearest(commits, bound),
            })
        },
    }
}

/// Monotonized timestamps never decrease, they stay in the range of a timestamp, and they strictly
/// increase up to the greatest timestamp there is.
pub proof fn lemma_monotonized_increases(commits: Seq<ParsedLogPath>, i: int, j: int)
    requires
        -1 <= i <= j < commits.len(),
    ensures
        i64::MIN <= monotonized(commits, i) <= monotonized(commits, j) <= i64::MAX,
        i < j && monotonized(commits, i) < i64::MAX ==> monotonized(commits, i) < monotonized(
            commits,
            j,
        ),
    decreases j - i, j + 1,
{
    if i < j {
        lemma_monotonized_increases(commits, i, j - 1);
    } else if i >= 0 {
        lemma_monotonized_increases(commits, i - 1, i - 1);
    }
}

/// Finds a commit by the modification times of the commit files, oldest version first.
///
/// Clock skew can put modification times out of order, so they are monotonized on the way: a time
/// that is not past the one before it counts as the one before it plus one. The timestamp of the
/// returned commit is the monotonized one.
pub fn linear_search_file_mod_timestamps(
    commits: &[ParsedLogPath],
    timestamp: Timestamp,
    bound: Bound,
) -> (r: Result<CommitAt, LogHistoryError>)
    ensures
        file_mod_outcome(commits@, timestamp, bound, r),
{
    if commits.len() == 0 {
        return Err(LogHistoryError::out_of_range(timestamp, bound, NearestTimestamp::Unknown));
    }
    let mut result: Option<CommitAt> = None;
    let mut previous: Timestamp = i64::MIN;
    let mut i: usize = 0;
    while i < commits.len()
        invariant_except_break
            0 <= i <= commits.len(),
            0 < commits.len(),
            previous == monotonized(commits@, i - 1),
            bound is LeastUpper ==> result is None,
            bound is LeastUpper ==> forall|j: int|
                0 <= j < i ==> #[trigger] monotonized(commits@, j) < timestamp,
            bound is GreatestLower ==> forall|j: int|
                0 <= j < i ==> #[trigger] monotonized(commits@, j) <= timestamp,
            bound is GreatestLower ==> (result is None <==> i == 0),
            result matches Some(commit) ==> commit.version == commits@[i - 1].version
                && commit.timestamp == monotonized(commits@, i - 1),
        ensures
            bound is LeastUpper ==> i == commits.len() && result is None && previous == monotonized(
                commits@,
                i - 1,
            ) && forall|j: int| 0 <= j < i ==> #[trigger] monotonized(commits@, j) < timestamp,
            bound is GreatestLower ==> (result is None ==> monotonized(commits@, 0) > timestamp),
            bound is GreatestLower ==> (result matches Some(commit) ==> i > 0
                && commit.version == commits@[i - 1].version && commit.timestamp == monotonized(
                commits@,
                i - 1,
            ) && commit.timestamp <= timestamp && (i < commits.len() ==> monotonized(
                commits@,
                i as int,
            ) > timestamp)),
            i <= commits.len(),
        decreases commits.len() - i,
    {
        let raw: Timestamp = commits[i].location.last_modified;
        let floor: Timestamp = if previous < i64::MAX {
            previous + 1
        } else {
            previous
        };
        let monotonic: Timestamp = if raw >= floor {
            raw
        } else {
            floor
        };
        assert(monotonic == monotonized(commits@, i as int));
        match bound {
            Bound::GreatestLower => {
                if monotonic > timestamp {
                    break;
                }
                result = Some(CommitAt::new(commits[i].version, monotonic));
            },
            Bound::LeastUpper => {
                if monotonic >= timestamp {
                    assert(is_file_mod_bound(commits@, timestamp, bound, i as int));
                    return Ok(CommitAt::new(commits[i].version, monotonic));
                }
            },
        }
        previous = monotonic;
        i += 1;
    }
    match result {
        Some(commit) => {
            assert(is_file_mod_bound(commits@, timestamp, bound, i - 1)) by {
                assert forall|j: int| i - 1 < j < commits@.len() implies #[trigger] monotonized(
                    commits@,
                    j,
                ) > timestamp by {
                    lemma_monotonized_increases(commits@, i as int, j);
                }
            }
            Ok(commit)
        },
        None => {
            let nearest: Timestamp = match bound {
                Bound::GreatestLower => commits[0].location.last_modified,
                Bound::LeastUpper => previous,
            };
            proof {
                assert forall|k: int| !#[trigger]
                    is_file_mod_bound(commits@, timestamp, bound, k) by {
                    if 0 <= k < commits@.len() {
                        lemma_monotonized_increases(commits@, 0, k);
                    }
                }
            }
            Err(
                LogHistoryError::out_of_range(
                    timestamp,
                    bound,
                    NearestTimestamp::from_boundary(bound, nearest),
                ),
            )
        },
    }
}

} // verus!
