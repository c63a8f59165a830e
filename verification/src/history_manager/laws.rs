//! What holds of timestamp queries as a whole.

use vstd::prelude::*;

use super::earliest::{
    anchored_version, anchors, completes_checkpoint, counts, earliest_outcome,
    ends_published_scan, ends_recreatable_scan, first_commit, is_commit, last_checkpoint,
    recreatable_outcome, ListedPath,
};
use super::error::{LogHistoryError, NearestTimestamp};
use super::file_mod::{
    file_mod_outcome, is_file_mod_bound, lemma_monotonized_increases, monotonized,
};
use super::ict::{
    ict_outcome, ict_run, icts_increase, is_ict_bound, lemma_ict_search_finds_bound, IctRead,
    IctSearch,
};
use super::search::Bound;
use super::{
    bounded_outcome, commits_between, delta_outcome, first_searched, is_version_index,
    lemma_from_version, limit_outcome, search_bounds_outcome, segment_outcome, snapshot_outcome,
    version_outcome, CommitAt, HistoryCommitType, InCommitTimestampEnablement, ParsedLogPath,
    SegmentView, TableHistory, Timestamp, TimestampSearchBounds,
};
use crate::error::{DeltaResult, Error};
use crate::Version;

verus! {

// ---------------------------------------------------------------------------------------------
// Searches over one kind of timestamp
// ---------------------------------------------------------------------------------------------

/// A search over file modification times has one answer.
pub proof fn law_file_mod_search_has_one_answer(
    commits: Seq<ParsedLogPath>,
    timestamp: Timestamp,
    bound: Bound,
    r: Result<CommitAt, LogHistoryError>,
    other: Result<CommitAt, LogHistoryError>,
)
    requires
        file_mod_outcome(commits, timestamp, bound, r),
        file_mod_outcome(commits, timestamp, bound, other),
    ensures
        r == other,
{
    if r is Ok && other is Ok {
        let i = choose|i: int| #[trigger]
            is_file_mod_bound(commits, timestamp, bound, i) && r->Ok_0.version
                == commits[i].version && r->Ok_0.timestamp == monotonized(commits, i);
        let j = choose|j: int| #[trigger]
            is_file_mod_bound(commits, timestamp, bound, j) && other->Ok_0.version
                == commits[j].version && other->Ok_0.timestamp == monotonized(commits, j);
        assert(i == j) by {
            if i < j {
                assert(monotonized(commits, i) <= monotonized(commits, j)) by {
                    lemma_monotonized_increases(commits, i, j);
                }
            }
            if j < i {
                assert(monotonized(commits, j) <= monotonized(commits, i)) by {
                    lemma_monotonized_increases(commits, j, i);
                }
            }
        }
    }
}

/// A query at the (monotonized) timestamp of a commit finds that commit, on either side.
///
/// Timestamps are distinct below the greatest one there is, where monotonizing stops.
pub proof fn law_file_mod_search_finds_commit_at_its_time(
    commits: Seq<ParsedLogPath>,
    i: int,
    bound: Bound,
    r: Result<CommitAt, LogHistoryError>,
)
    requires
        0 <= i < commits.len(),
        monotonized(commits, i) < i64::MAX || match bound {
            Bound::GreatestLower => i == commits.len() - 1,
            Bound::LeastUpper => i == 0,
        },
        file_mod_outcome(commits, monotonized(commits, i) as i64, bound, r),
    ensures
        r == Ok::<CommitAt, LogHistoryError>(
            CommitAt { version: commits[i].version, timestamp: monotonized(commits, i) as i64 },
        ),
{
    let timestamp = monotonized(commits, i) as i64;
    lemma_monotonized_increases(commits, i, i);
    assert forall|j: int| i < j < commits.len() && bound is GreatestLower implies
        #[trigger] monotonized(commits, j) > timestamp by {
        lemma_monotonized_increases(commits, i, j);
    }
    assert forall|j: int| 0 <= j < i && bound is LeastUpper implies #[trigger] monotonized(
        commits,
        j,
    ) < timestamp by {
        lemma_monotonized_increases(commits, j, i);
    }
    assert(is_file_mod_bound(commits, timestamp, bound, i));
    law_file_mod_search_has_one_answer(
        commits,
        timestamp,
        bound,
        r,
        Ok(CommitAt { version: commits[i].version, timestamp }),
    );
}

/// When a timestamp is out of range of the file modification times, another query at the suggested
/// nearest timestamp finds the commit at that end of the log.
///
/// This leaves out, on the side of the first commit, a modification time that is the least timestamp
/// there is (its monotonized time is one later), and one that is the greatest (the commits after it
/// share it).
pub proof fn law_file_mod_nearest_round_trips(
    commits: Seq<ParsedLogPath>,
    timestamp: Timestamp,
    bound: Bound,
    r: Result<CommitAt, LogHistoryError>,
    nearest: Timestamp,
    again: Result<CommitAt, LogHistoryError>,
)
    requires
        bound is GreatestLower ==> i64::MIN < commits[0].location.last_modified,
        bound is GreatestLower ==> commits[0].location.last_modified < i64::MAX || commits.len()
            == 1,
        file_mod_outcome(commits, timestamp, bound, r),
        r == Err::<CommitAt, LogHistoryError>(
            LogHistoryError::TimestampOutOfRange {
                timestamp,
                bound,
                nearest_timestamp: NearestTimestamp::boundary(bound, nearest),
            },
        ),
        file_mod_outcome(commits, nearest, bound, again),
    ensures
        again == Ok::<CommitAt, LogHistoryError>(
            CommitAt {
                version: commits[bound.boundary_index(commits.len())].version,
                timestamp: nearest,
            },
        ),
{
    let at = bound.boundary_index(commits.len());
    lemma_monotonized_increases(commits, at, at);
    reveal_with_fuel(monotonized, 2);
    if bound is LeastUpper {
        assert(monotonized(commits, at) < timestamp) by {
            if monotonized(commits, at) >= timestamp {
                lemma_some_least_upper(commits, timestamp, at);
            }
        }
    }
    assert(monotonized(commits, at) == nearest);
    law_file_mod_search_finds_commit_at_its_time(commits, at, bound, again);
}

/// Where some commit is at or after a timestamp, there is a first one.
proof fn lemma_some_least_upper(commits: Seq<ParsedLogPath>, timestamp: Timestamp, i: int)
    requires
        0 <= i < commits.len(),
        monotonized(commits, i) >= timestamp,
    ensures
        exists|k: int| #[trigger] is_file_mod_bound(commits, timestamp, Bound::LeastUpper, k),
    decreases i,
{
    if i > 0 && monotonized(commits, i - 1) >= timestamp {
        lemma_some_least_upper(commits, timestamp, i - 1);
    } else {
        assert forall|j: int| 0 <= j < i implies #[trigger] monotonized(commits, j) < timestamp by {
            lemma_monotonized_increases(commits, j, i - 1);
        }
        assert(is_file_mod_bound(commits, timestamp, Bound::LeastUpper, i));
    }
}

// ---------------------------------------------------------------------------------------------
// Queries on a whole table
// ---------------------------------------------------------------------------------------------

/// Whether the commits from position `start` on are those with in-commit timestamps.
pub open spec fn is_ict_start(
    enablement: InCommitTimestampEnablement,
    commits: Seq<ParsedLogPath>,
    start: int,
) -> bool {
    match enablement {
        InCommitTimestampEnablement::NotEnabled => start == commits.len(),
        InCommitTimestampEnablement::Enabled { enablement: None } => start == 0,
        InCommitTimestampEnablement::Enabled { enablement: Some((version, _)) } => is_version_index(
            commits,
            version,
            start,
        ),
    }
}

/// The timestamp of commit `i`: the in-commit timestamp from position `start` on, before it the
/// monotonized modification time.
pub open spec fn commit_timestamp(segment: SegmentView, start: int, i: int) -> int {
    if i < start {
        monotonized(segment.commits, i)
    } else {
        segment.reads[i]->Ok_0 as int
    }
}

/// What tables with in-commit timestamps keep: from position `start` on each commit has one and
/// they increase; the first of them belongs to the enablement version and is the enablement
/// timestamp, which is later than the times of the commits before it.
pub open spec fn icts_follow_protocol(
    enablement: InCommitTimestampEnablement,
    segment: SegmentView,
    start: int,
) -> bool {
    let commits = segment.commits;
    let reads = segment.reads;
    &&& icts_increase(reads.skip(start))
    &&& enablement matches InCommitTimestampEnablement::Enabled {
        enablement: Some((version, ict)),
    } ==> (start > 0 ==> {
        &&& start < commits.len()
        &&& commits[start].version == version
        &&& reads[start] == Ok::<Timestamp, String>(ict)
        &&& monotonized(commits, start - 1) < ict
    })
}

/// Whether commit `i` is the one that `bound` asks for: the last one at or before `timestamp`, or
/// the first one at or after it.
pub open spec fn is_timestamp_bound(
    segment: SegmentView,
    start: int,
    timestamp: Timestamp,
    bound: Bound,
    i: int,
) -> bool {
    let len = segment.commits.len();
    &&& 0 <= i < len
    &&& match bound {
        Bound::GreatestLower => {
            &&& commit_timestamp(segment, start, i) <= timestamp
            &&& forall|j: int|
                i < j < len ==> #[trigger] commit_timestamp(segment, start, j) > timestamp
        },
        Bound::LeastUpper => {
            &&& commit_timestamp(segment, start, i) >= timestamp
            &&& forall|j: int|
                0 <= j < i ==> #[trigger] commit_timestamp(segment, start, j) < timestamp
        },
    }
}

/// Whether `r` is the commit on the asked side of a timestamp, or says that there is none.
pub open spec fn finds_bound(
    segment: SegmentView,
    start: int,
    timestamp: Timestamp,
    bound: Bound,
    r: Result<CommitAt, LogHistoryError>,
) -> bool {
    match r {
        Ok(commit) => exists|i: int| #[trigger]
            is_timestamp_bound(segment, start, timestamp, bound, i) && commit.version
                == segment.commits[i].version && commit.timestamp
                == commit_timestamp(segment, start, i),
        Err(error) => {
            &&& forall|i: int| !#[trigger] is_timestamp_bound(segment, start, timestamp, bound, i)
            &&& error is TimestampOutOfRange
            &&& error->timestamp == timestamp
            &&& error->bound == bound
        },
    }
}

/// Monotonized times depend only on the commits before.
pub(crate) proof fn lemma_monotonized_prefix(commits: Seq<ParsedLogPath>, n: int, i: int)
    requires
        -1 <= i < n <= commits.len(),
    ensures
        monotonized(commits.take(n), i) == monotonized(commits, i),
    decreases i + 1,
{
    if i >= 0 {
        lemma_monotonized_prefix(commits, n, i - 1);
    }
}

/// The timestamps of the commits never decrease.
proof fn lemma_commit_timestamps_increase(
    enablement: InCommitTimestampEnablement,
    segment: SegmentView,
    start: int,
    i: int,
    j: int,
)
    requires
        segment.wf(),
        is_ict_start(enablement, segment.commits, start),
        icts_follow_protocol(enablement, segment, start),
        0 <= i <= j < segment.commits.len(),
    ensures
        commit_timestamp(segment, start, i) <= commit_timestamp(segment, start, j),
        i < j && (i >= start || commit_timestamp(segment, start, i) < i64::MAX)
            ==> commit_timestamp(segment, start, i) < commit_timestamp(segment, start, j),
{
    let commits = segment.commits;
    let reads = segment.reads;
    if j < start {
        lemma_monotonized_increases(commits, i, j);
    } else {
        assert(reads.skip(start)[j - start] == reads[j]);
        if i < start {
            lemma_monotonized_increases(commits, i, start - 1);
            assert(reads.skip(start)[0] == reads[start]);
        } else {
            assert(reads.skip(start)[i - start] == reads[i]);
        }
    }
}

/// A search of the commits of a table that follows the protocol finds the commit on the asked side
/// of the timestamp, whichever of them carry in-commit timestamps.
pub proof fn law_segment_search_finds_bound(
    enablement: InCommitTimestampEnablement,
    segment: SegmentView,
    start: int,
    timestamp: Timestamp,
    bound: Bound,
    r: Result<CommitAt, LogHistoryError>,
)
    requires
        segment.wf(),
        is_ict_start(enablement, segment.commits, start),
        icts_follow_protocol(enablement, segment, start),
        segment_outcome(Ok(enablement), segment, timestamp, bound, r),
    ensures
        finds_bound(segment, start, timestamp, bound, r),
{
    let commits = segment.commits;
    let reads = segment.reads;
    let bounds = choose|bounds: Result<TimestampSearchBounds, LogHistoryError>| #[trigger]
        search_bounds_outcome(Ok(enablement), commits, timestamp, bounds) && bounded_outcome(
            bounds,
            segment,
            timestamp,
            bound,
            r,
        );
    match bounds {
        Err(error) => {
            assert(commits.last() == commits[commits.len() - 1]);
            assert(false);
        },
        Ok(TimestampSearchBounds::ExactMatch(version)) => {
            assert(0 < start < commits.len());
            assert forall|j: int| start < j < commits.len() implies #[trigger] commit_timestamp(
                segment,
                start,
                j,
            ) > timestamp by {
                lemma_commit_timestamps_increase(enablement, segment, start, start, j);
            }
            assert forall|j: int| 0 <= j < start implies #[trigger] commit_timestamp(
                segment,
                start,
                j,
            ) < timestamp by {
                lemma_monotonized_increases(commits, j, start - 1);
            }
            assert(is_timestamp_bound(segment, start, timestamp, bound, start));
        },
        Ok(TimestampSearchBounds::ICTSearchStartingFrom(lo)) => {
            assert(lo == start) by {
                if lo < start {
                    assert(commits[lo as int].version >= commits[0].version);
                }
                if start < lo {
                    assert(commits[start].version >= commits[0].version);
                }
            }
            lemma_ict_part(enablement, segment, start, timestamp, bound, r);
        },
        Ok(TimestampSearchBounds::FileModificationSearch) => {
            assert(commits.take(start) =~= commits);
            lemma_file_mod_part(enablement, segment, start, timestamp, bound, r);
        },
        Ok(
            TimestampSearchBounds::FileModificationSearchUntil {
                index,
                ict_enablement_version,
                ict_enablement_timestamp,
            },
        ) => {
            assert(index == start) by {
                if index < start {
                    assert(commits[index as int].version >= commits[0].version);
                }
                if start < index {
                    assert(commits[start].version >= commits[0].version);
                }
            }
            assert(0 < start < commits.len());
            lemma_file_mod_part(enablement, segment, start, timestamp, bound, r);
        },
    }
}

/// The part of the law for a search over in-commit timestamps.
proof fn lemma_ict_part(
    enablement: InCommitTimestampEnablement,
    segment: SegmentView,
    start: int,
    timestamp: Timestamp,
    bound: Bound,
    r: Result<CommitAt, LogHistoryError>,
)
    requires
        segment.wf(),
        is_ict_start(enablement, segment.commits, start),
        icts_follow_protocol(enablement, segment, start),
        0 <= start < segment.commits.len(),
        start > 0 ==> segment.reads[start]->Ok_0 < timestamp,
        start > 0 ==> enablement matches InCommitTimestampEnablement::Enabled {
            enablement: Some(_),
        },
        ict_outcome(
            segment.commits.skip(start),
            segment.reads.skip(start),
            timestamp,
            bound,
            r,
        ),
    ensures
        finds_bound(segment, start, timestamp, bound, r),
{
    let commits = segment.commits;
    let reads = segment.reads;
    let rest = commits.skip(start);
    let rest_reads = reads.skip(start);
    lemma_ict_search_finds_bound(rest, rest_reads, timestamp, bound, r);
    assert forall|i: int| start <= i < commits.len() implies #[trigger] commit_timestamp(
        segment,
        start,
        i,
    ) == rest_reads[i - start]->Ok_0 by {}
    assert forall|j: int| 0 <= j < start implies #[trigger] commit_timestamp(segment, start, j)
        < timestamp by {
        lemma_monotonized_increases(commits, j, start - 1);
    }
    match r {
        Ok(commit) => {
            let k = choose|k: int| #[trigger]
                is_ict_bound(rest_reads, timestamp, bound, k) && commit.version == rest[k].version
                    && commit.timestamp == rest_reads[k]->Ok_0;
            let i = k + start;
            assert forall|j: int| i < j < commits.len() && bound is GreatestLower implies
                #[trigger] commit_timestamp(segment, start, j) > timestamp by {
                assert(rest_reads[j - start]->Ok_0 > timestamp);
            }
            assert forall|j: int| 0 <= j < i && bound is LeastUpper implies
                #[trigger] commit_timestamp(segment, start, j) < timestamp by {
                if j >= start {
                    assert(rest_reads[j - start]->Ok_0 < timestamp);
                }
            }
            assert(is_timestamp_bound(segment, start, timestamp, bound, i));
        },
        Err(error) => {
            assert forall|i: int| !#[trigger]
                is_timestamp_bound(segment, start, timestamp, bound, i) by {
                if is_timestamp_bound(segment, start, timestamp, bound, i) {
                    if i >= start {
                        let k = i - start;
                        assert forall|m: int| k < m < rest_reads.len() && bound is GreatestLower
                            implies (#[trigger] rest_reads[m])->Ok_0 > timestamp by {
                            assert(commit_timestamp(segment, start, m + start) > timestamp);
                        }
                        assert forall|m: int| 0 <= m < k && bound is LeastUpper implies (
                        #[trigger] rest_reads[m])->Ok_0 < timestamp by {
                            assert(commit_timestamp(segment, start, m + start) < timestamp);
                        }
                        assert(is_ict_bound(rest_reads, timestamp, bound, k));
                    } else {
                        assert(commit_timestamp(segment, start, start) == reads[start]->Ok_0);
                    }
                }
            }
        },
    }
}

/// The part of the law for a search over modification times.
proof fn lemma_file_mod_part(
    enablement: InCommitTimestampEnablement,
    segment: SegmentView,
    start: int,
    timestamp: Timestamp,
    bound: Bound,
    r: Result<CommitAt, LogHistoryError>,
)
    requires
        segment.wf(),
        is_ict_start(enablement, segment.commits, start),
        icts_follow_protocol(enablement, segment, start),
        0 <= start <= segment.commits.len(),
        start < segment.commits.len() ==> start > 0
            && timestamp < segment.reads[start]->Ok_0,
        ({
            let commits = segment.commits;
            if start < commits.len() && bound is LeastUpper && forall|i: int| !#[trigger]
                is_file_mod_bound(commits.take(start), timestamp, bound, i) {
                r == Ok::<CommitAt, LogHistoryError>(
                    CommitAt {
                        version: commits[start].version,
                        timestamp: segment.reads[start]->Ok_0,
                    },
                )
            } else {
                file_mod_outcome(commits.take(start), timestamp, bound, r)
            }
        }),
    ensures
        finds_bound(segment, start, timestamp, bound, r),
{
    let commits = segment.commits;
    let reads = segment.reads;
    let earlier = commits.take(start);
    assert forall|i: int| 0 <= i < start implies #[trigger] monotonized(earlier, i)
        == commit_timestamp(segment, start, i) by {
        lemma_monotonized_prefix(commits, start, i);
    }
    assert forall|j: int| start <= j < commits.len() implies #[trigger] commit_timestamp(
        segment,
        start,
        j,
    ) > timestamp by {
        lemma_commit_timestamps_increase(enablement, segment, start, start, j);
    }
    assert forall|i: int| 0 <= i < start implies (#[trigger] is_file_mod_bound(
        earlier,
        timestamp,
        bound,
        i,
    ) <==> is_timestamp_bound(segment, start, timestamp, bound, i)) by {
        assert(monotonized(earlier, i) == commit_timestamp(segment, start, i));
        if is_file_mod_bound(earlier, timestamp, bound, i) {
            assert forall|j: int| i < j < commits.len() && bound is GreatestLower implies
                #[trigger] commit_timestamp(segment, start, j) > timestamp by {
                if j < start {
                    assert(monotonized(earlier, j) > timestamp);
                }
            }
            assert forall|j: int| 0 <= j < i && bound is LeastUpper implies
                #[trigger] commit_timestamp(segment, start, j) < timestamp by {
                assert(monotonized(earlier, j) < timestamp);
            }
        }
        if is_timestamp_bound(segment, start, timestamp, bound, i) {
            assert forall|j: int| i < j < earlier.len() && bound is GreatestLower implies
                #[trigger] monotonized(earlier, j) > timestamp by {
                assert(commit_timestamp(segment, start, j) > timestamp);
            }
            assert forall|j: int| 0 <= j < i && bound is LeastUpper implies
                #[trigger] monotonized(earlier, j) < timestamp by {
                assert(commit_timestamp(segment, start, j) < timestamp);
            }
        }
    }
    let none = forall|i: int| !#[trigger] is_file_mod_bound(earlier, timestamp, bound, i);
    if bound is LeastUpper && none && start < commits.len() {
        assert forall|j: int| 0 <= j < start implies #[trigger] commit_timestamp(segment, start, j)
            < timestamp by {
            if monotonized(earlier, j) >= timestamp {
                lemma_some_least_upper(earlier, timestamp, j);
            }
        }
        assert(is_timestamp_bound(segment, start, timestamp, bound, start));
    } else {
        match r {
            Ok(commit) => {
                let i = choose|i: int| #[trigger]
                    is_file_mod_bound(earlier, timestamp, bound, i) && commit.version
                        == earlier[i].version && commit.timestamp == monotonized(earlier, i);
                assert(is_timestamp_bound(segment, start, timestamp, bound, i));
            },
            Err(error) => {
                assert forall|i: int| !#[trigger]
                    is_timestamp_bound(segment, start, timestamp, bound, i) by {
                    if 0 <= i < start {
                        assert(!is_file_mod_bound(earlier, timestamp, bound, i));
                    } else if start <= i < commits.len() {
                        assert(commit_timestamp(segment, start, i) > timestamp);
                    }
                }
            },
        }
    }
}

/// Whether a query searches the commits from version `first` on: all of them, or those from the
/// earliest recreatable version on.
pub open spec fn searches_from(
    history: TableHistory,
    commit_type: HistoryCommitType,
    first: Version,
) -> bool {
    match commit_type {
        HistoryCommitType::Published => first == 0,
        HistoryCommitType::Recreatable => {
            &&& history.listing is Ok
            &&& earliest_outcome(
                history.listing->Ok_0@,
                history.log_root@,
                None,
                commit_type,
                Ok(first),
            )
            &&& commits_between(first, history.version) is Some
        },
    }
}

/// How many commits a query may return follows from where it searches from.
proof fn lemma_limit(
    history: TableHistory,
    commit_type: HistoryCommitType,
    first: Version,
    limit: Result<Option<usize>, LogHistoryError>,
)
    requires
        searches_from(history, commit_type, first),
        limit_outcome(
            history.listing,
            history.log_root@,
            history.version,
            commit_type,
            limit,
        ),
    ensures
        limit is Ok,
        first_searched(history.version, limit->Ok_0) == first,
        first <= history.version,
{
    if commit_type is Recreatable {
        let listing = history.listing->Ok_0@;
        let log_root = history.log_root@;
        assert forall|earliest: DeltaResult<Version>| #[trigger]
            earliest_outcome(listing, log_root, None, commit_type, earliest) implies earliest
            == Ok::<Version, Error>(first) by {
            law_earliest_version_has_one_answer(
                listing,
                log_root,
                None,
                commit_type,
                Ok(first),
                earliest,
            );
        }
    }
}

/// A query that the snapshot's own timestamp does not answer is answered by a search.
pub(crate) proof fn lemma_query_searches(
    history: TableHistory,
    timestamp: Timestamp,
    bound: Bound,
    commit_type: HistoryCommitType,
    first: Version,
    r: Result<CommitAt, LogHistoryError>,
)
    requires
        searches_from(history, commit_type, first),
        history.segment is Ok,
        history.timestamp is Ok,
        snapshot_outcome(history.version, history.timestamp->Ok_0, timestamp, bound) is None,
        version_outcome(history, timestamp, bound, commit_type, r),
    ensures
        segment_outcome(
            history.ict_enablement,
            history.segment->Ok_0@.from_version(first),
            timestamp,
            bound,
            r,
        ),
{
    assert forall|limit: Result<Option<usize>, LogHistoryError>| #[trigger]
        limit_outcome(
            history.listing,
            history.log_root@,
            history.version,
            commit_type,
            limit,
        ) implies limit is Ok && first_searched(history.version, limit->Ok_0) == first by {
        lemma_limit(history, commit_type, first, limit);
    }
}

/// A query on a table that follows the protocol finds the commit on the asked side of the timestamp
/// among those that it may return: answering from the snapshot's own timestamp gives the same as
/// searching them.
///
/// The snapshot is the last of the commits, and its timestamp is later than the one before it.
pub proof fn law_query_finds_bound(
    history: TableHistory,
    commit_type: HistoryCommitType,
    first: Version,
    start: int,
    timestamp: Timestamp,
    bound: Bound,
    r: Result<CommitAt, LogHistoryError>,
)
    requires
        history.wf(),
        history.segment is Ok,
        history.ict_enablement is Ok,
        searches_from(history, commit_type, first),
        ({
            let segment = history.segment->Ok_0@.from_version(first);
            let commits = segment.commits;
            let last = commits.len() - 1;
            &&& is_ict_start(history.ict_enablement->Ok_0, commits, start)
            &&& icts_follow_protocol(history.ict_enablement->Ok_0, segment, start)
            &&& history.timestamp == Ok::<Timestamp, String>(
                commit_timestamp(segment, start, last) as i64,
            )
            &&& last > 0 ==> commit_timestamp(segment, start, last - 1) < commit_timestamp(
                segment,
                start,
                last,
            )
        }),
        version_outcome(history, timestamp, bound, commit_type, r),
    ensures
        finds_bound(history.segment->Ok_0@.from_version(first), start, timestamp, bound, r),
{
    assert(first <= history.version);
    lemma_from_version(history.segment->Ok_0@, first);
    let segment = history.segment->Ok_0@.from_version(first);
    let commits = segment.commits;
    let enablement = history.ict_enablement->Ok_0;
    let last = commits.len() - 1;
    let latest = commit_timestamp(segment, start, last);
    assert(commits[last].version == history.version);
    assert(i64::MIN <= latest <= i64::MAX) by {
        if last < start {
            lemma_monotonized_increases(commits, last, last);
        }
    }
    if timestamp < latest {
        lemma_query_searches(history, timestamp, bound, commit_type, first, r);
        law_segment_search_finds_bound(enablement, segment, start, timestamp, bound, r);
    } else {
        assert forall|j: int| 0 <= j < last implies #[trigger] commit_timestamp(segment, start, j)
            < latest by {
            lemma_commit_timestamps_increase(enablement, segment, start, j, last - 1);
        }
        if bound is GreatestLower || timestamp == latest {
            assert(is_timestamp_bound(segment, start, timestamp, bound, last));
        } else {
            assert forall|i: int| !#[trigger]
                is_timestamp_bound(segment, start, timestamp, bound, i) by {
                if 0 <= i <= last {
                    lemma_commit_timestamps_increase(enablement, segment, start, i, last);
                }
            }
        }
    }
}

/// A query for a later timestamp does not find an earlier version.
pub proof fn law_later_timestamps_find_later_versions(
    segment: SegmentView,
    start: int,
    earlier: Timestamp,
    later: Timestamp,
    bound: Bound,
    at_earlier: CommitAt,
    at_later: CommitAt,
)
    requires
        segment.wf(),
        earlier <= later,
        finds_bound(segment, start, earlier, bound, Ok(at_earlier)),
        finds_bound(segment, start, later, bound, Ok(at_later)),
    ensures
        at_earlier.version <= at_later.version,
{
    let commits = segment.commits;
    let i = choose|i: int| #[trigger]
        is_timestamp_bound(segment, start, earlier, bound, i) && at_earlier.version
            == commits[i].version && at_earlier.timestamp == commit_timestamp(segment, start, i);
    let j = choose|j: int| #[trigger]
        is_timestamp_bound(segment, start, later, bound, j) && at_later.version
            == commits[j].version && at_later.timestamp == commit_timestamp(segment, start, j);
    assert(i <= j) by {
        if j < i {
            assert(commit_timestamp(segment, start, i) == commit_timestamp(segment, start, i));
            assert(commit_timestamp(segment, start, j) == commit_timestamp(segment, start, j));
        }
    }
}

/// The two sides of a timestamp enclose it: the commit at or before it is no later than the commit
/// at or after it, and no commit lies between the two.
///
/// Timestamps are distinct below the greatest one there is.
pub proof fn law_bounds_enclose_timestamp(
    enablement: InCommitTimestampEnablement,
    segment: SegmentView,
    start: int,
    timestamp: Timestamp,
    before: CommitAt,
    after: CommitAt,
)
    requires
        segment.wf(),
        is_ict_start(enablement, segment.commits, start),
        icts_follow_protocol(enablement, segment, start),
        timestamp < i64::MAX,
        finds_bound(segment, start, timestamp, Bound::GreatestLower, Ok(before)),
        finds_bound(segment, start, timestamp, Bound::LeastUpper, Ok(after)),
    ensures
        before.timestamp <= timestamp <= after.timestamp,
        before.version <= after.version,
        before.version == after.version <==> before.timestamp == timestamp,
        forall|k: int|
            #![trigger segment.commits[k]]
            0 <= k < segment.commits.len() ==> !(before.version
                < segment.commits[k].version < after.version),
{
    let commits = segment.commits;
    let i = choose|i: int| #[trigger]
        is_timestamp_bound(segment, start, timestamp, Bound::GreatestLower, i) && before.version
            == commits[i].version && before.timestamp == commit_timestamp(segment, start, i);
    let j = choose|j: int| #[trigger]
        is_timestamp_bound(segment, start, timestamp, Bound::LeastUpper, j) && after.version
            == commits[j].version && after.timestamp == commit_timestamp(segment, start, j);
    assert(j <= i + 1) by {
        if j > i + 1 {
            assert(commit_timestamp(segment, start, i + 1) > timestamp);
            assert(commit_timestamp(segment, start, i + 1) < timestamp);
        }
    }
    assert(i <= j) by {
        if j < i {
            lemma_commit_timestamps_increase(enablement, segment, start, j, i);
        }
    }
    if before.timestamp == timestamp {
        assert(j <= i) by {
            if i < j {
                assert(commit_timestamp(segment, start, i) < timestamp);
            }
        }
    }
    assert forall|k: int|
        #![trigger commits[k]]
        0 <= k < commits.len() implies !(before.version < commits[k].version < after.version) by {
        if k < i {
            assert(commits[k].version < commits[i].version);
        }
        if j < k {
            assert(commits[j].version < commits[k].version);
        }
    }
}

/// The last version at or before a timestamp and the first one at or after it are the same one where
/// its timestamp is just that, else the second follows the first. Where there is no second, the
/// first is the snapshot, and its timestamp is before.
///
/// The commits that the query may return follow one another without gaps, their timestamps increase,
/// and the last one is the snapshot.
pub proof fn law_versions_on_both_sides_are_neighbours(
    history: TableHistory,
    commit_type: HistoryCommitType,
    first: Version,
    start: int,
    timestamp: Timestamp,
    before: CommitAt,
    after: DeltaResult<CommitAt>,
)
    requires
        history.wf(),
        history.segment is Ok,
        history.ict_enablement is Ok,
        searches_from(history, commit_type, first),
        ({
            let segment = history.segment->Ok_0@.from_version(first);
            let commits = segment.commits;
            let last = commits.len() - 1;
            &&& is_ict_start(history.ict_enablement->Ok_0, commits, start)
            &&& icts_follow_protocol(history.ict_enablement->Ok_0, segment, start)
            &&& history.timestamp == Ok::<Timestamp, String>(
                commit_timestamp(segment, start, last) as i64,
            )
            &&& forall|i: int, j: int|
                0 <= i < j < commits.len() ==> #[trigger] commit_timestamp(segment, start, i)
                    < #[trigger] commit_timestamp(segment, start, j)
            &&& forall|i: int|
                0 < i < commits.len() ==> (#[trigger] commits[i]).version == commits[i - 1].version
                    + 1
        }),
        delta_outcome(history, timestamp, Bound::GreatestLower, commit_type, Ok(before)),
        delta_outcome(history, timestamp, Bound::LeastUpper, commit_type, after),
    ensures
        match after {
            Ok(after) => {
                &&& before.timestamp <= timestamp <= after.timestamp
                &&& before.timestamp == timestamp ==> after == before
                &&& before.timestamp != timestamp ==> after.version == before.version + 1
            },
            Err(_) => before.version == history.version && before.timestamp < timestamp,
        },
{
    let segment = history.segment->Ok_0@.from_version(first);
    let commits = segment.commits;
    let last = commits.len() - 1;
    lemma_from_version(history.segment->Ok_0@, first);
    law_query_finds_bound(
        history,
        commit_type,
        first,
        start,
        timestamp,
        Bound::GreatestLower,
        Ok(before),
    );
    let found: Result<CommitAt, LogHistoryError> = match after {
        Ok(after) => Ok(after),
        Err(Error::LogHistory(inner)) => Err(*inner),
        Err(_) => arbitrary(),
    };
    law_query_finds_bound(history, commit_type, first, start, timestamp, Bound::LeastUpper, found);
    let i = choose|i: int| #[trigger]
        is_timestamp_bound(segment, start, timestamp, Bound::GreatestLower, i) && before.version
            == commits[i].version && before.timestamp == commit_timestamp(segment, start, i);
    match after {
        Ok(after) => {
            let j = choose|j: int| #[trigger]
                is_timestamp_bound(segment, start, timestamp, Bound::LeastUpper, j) && after.version
                    == commits[j].version && after.timestamp == commit_timestamp(segment, start, j);
            assert(i <= j <= i + 1) by {
                if j < i {
                    assert(commit_timestamp(segment, start, j) < commit_timestamp(
                        segment,
                        start,
                        i,
                    ));
                }
                if j > i + 1 {
                    assert(commit_timestamp(segment, start, i + 1) > timestamp);
                    assert(commit_timestamp(segment, start, i + 1) < timestamp);
                }
            }
            if before.timestamp == timestamp && j == i + 1 {
                assert(commit_timestamp(segment, start, i) < timestamp);
            }
        },
        Err(_) => {
            assert(commits[last].version == history.version);
            if i < last {
                assert(commit_timestamp(segment, start, i + 1) > timestamp);
                assert forall|k: int| 0 <= k < i + 1 && commit_timestamp(segment, start, i)
                    < timestamp implies #[trigger] commit_timestamp(segment, start, k)
                    < timestamp by {
                    if k < i {
                        assert(commit_timestamp(segment, start, k) < commit_timestamp(
                            segment,
                            start,
                            i,
                        ));
                    }
                }
                if commit_timestamp(segment, start, i) < timestamp {
                    assert(is_timestamp_bound(
                        segment,
                        start,
                        timestamp,
                        Bound::LeastUpper,
                        i + 1,
                    ));
                }
            }
            if commit_timestamp(segment, start, i) == timestamp {
                assert forall|k: int| 0 <= k < i implies #[trigger] commit_timestamp(
                    segment,
                    start,
                    k,
                ) < timestamp by {
                    assert(commit_timestamp(segment, start, k) < commit_timestamp(
                        segment,
                        start,
                        i,
                    ));
                }
                assert(is_timestamp_bound(segment, start, timestamp, Bound::LeastUpper, i));
            }
        },
    }
}

/// A search over in-commit timestamps finds one of the commits, whatever their timestamps are.
proof fn lemma_ict_run_finds_commit(
    search: IctSearch,
    commits: Seq<ParsedLogPath>,
    reads: Seq<IctRead>,
    commit: CommitAt,
)
    requires
        search.wf(),
        search.len == commits.len(),
        ict_run(search, commits, reads, Ok(commit)),
    ensures
        exists|i: int| 0 <= i < commits.len() && (#[trigger] commits[i]).version == commit.version,
    decreases search.fuel(),
{
    let read = reads[search.reads()];
    if search.phase is Probing && read is Ok {
        lemma_ict_run_finds_commit(search.probed(read->Ok_0), commits, reads, commit);
    } else {
        assert(search.phase is Located);
        assert(commits[search.reads()].version == commit.version);
    }
}

/// A search finds no version before the first of the commits that it covers.
proof fn lemma_search_stays_in_segment(
    enablement: Result<InCommitTimestampEnablement, String>,
    segment: SegmentView,
    timestamp: Timestamp,
    bound: Bound,
    commit: CommitAt,
)
    requires
        segment.wf(),
        segment_outcome(enablement, segment, timestamp, bound, Ok(commit)),
    ensures
        segment.commits[0].version <= commit.version,
{
    let commits = segment.commits;
    let r: Result<CommitAt, LogHistoryError> = Ok(commit);
    let bounds = choose|bounds: Result<TimestampSearchBounds, LogHistoryError>| #[trigger]
        search_bounds_outcome(enablement, commits, timestamp, bounds) && bounded_outcome(
            bounds,
            segment,
            timestamp,
            bound,
            r,
        );
    match bounds {
        Err(_) => {},
        Ok(TimestampSearchBounds::ExactMatch(_)) => {},
        Ok(TimestampSearchBounds::ICTSearchStartingFrom(lo)) => {
            let rest = commits.skip(lo as int);
            let reads = segment.reads.skip(lo as int);
            if rest.len() > 0 {
                let len = rest.len() as usize;
                lemma_ict_run_finds_commit(
                    IctSearch {
                        timestamp,
                        bound,
                        len,
                        phase: super::ict::IctPhase::Probing { lo: 0, hi: len },
                    },
                    rest,
                    reads,
                    commit,
                );
                let i = choose|i: int|
                    0 <= i < rest.len() && (#[trigger] rest[i]).version == commit.version;
                assert(rest[i] == commits[i + lo]);
                if i + lo > 0 {
                    assert(commits[0].version < commits[i + lo].version);
                }
            }
        },
        Ok(TimestampSearchBounds::FileModificationSearch) => {
            let i = choose|i: int| #[trigger]
                is_file_mod_bound(commits, timestamp, bound, i) && commit.version
                    == commits[i].version && commit.timestamp == monotonized(commits, i);
            if i > 0 {
                assert(commits[0].version < commits[i].version);
            }
        },
        Ok(
            TimestampSearchBounds::FileModificationSearchUntil {
                index,
                ict_enablement_version,
                ict_enablement_timestamp,
            },
        ) => {
            let earlier = commits.take(index as int);
            if !(bound is LeastUpper && forall|i: int| !#[trigger]
                is_file_mod_bound(earlier, timestamp, bound, i)) {
                let i = choose|i: int| #[trigger]
                    is_file_mod_bound(earlier, timestamp, bound, i) && commit.version
                        == earlier[i].version && commit.timestamp == monotonized(earlier, i);
                assert(earlier[i] == commits[i]);
                if i > 0 {
                    assert(commits[0].version < commits[i].version);
                }
            }
        },
    }
}

/// A query for recreatable commits answers with no version before the earliest recreatable one.
///
/// An answer that a search finds is never before it. The snapshot itself, where its own timestamp
/// answers, is not looked for in the log: it is not before it either, where the log reaches up to the
/// snapshot's version.
pub proof fn law_recreatable_answer_can_be_reconstructed(
    history: TableHistory,
    timestamp: Timestamp,
    bound: Bound,
    earliest: Version,
    commit: CommitAt,
)
    requires
        history.wf(),
        history.listing is Ok,
        earliest_outcome(
            history.listing->Ok_0@,
            history.log_root@,
            None,
            HistoryCommitType::Recreatable,
            Ok(earliest),
        ),
        version_outcome(history, timestamp, bound, HistoryCommitType::Recreatable, Ok(commit)),
    ensures
        snapshot_outcome(history.version, history.timestamp->Ok_0, timestamp, bound) is None
            ==> earliest <= commit.version,
        snapshot_outcome(history.version, history.timestamp->Ok_0, timestamp, bound) is Some
            ==> commit.version == history.version,
        earliest <= history.version ==> earliest <= commit.version,
{
    if snapshot_outcome(history.version, history.timestamp->Ok_0, timestamp, bound) is None {
        let recreatable = HistoryCommitType::Recreatable;
        let listing = history.listing->Ok_0@;
        let log_root = history.log_root@;
        assert(commits_between(earliest, history.version) is Some && history.segment is Ok) by {
            assert forall|found: DeltaResult<Version>| #[trigger]
                earliest_outcome(listing, log_root, None, recreatable, found) implies found
                == Ok::<Version, Error>(earliest) by {
                law_earliest_version_has_one_answer(
                    listing,
                    log_root,
                    None,
                    recreatable,
                    Ok(earliest),
                    found,
                );
            }
        }
        lemma_query_searches(history, timestamp, bound, recreatable, earliest, Ok(commit));
        let segment = history.segment->Ok_0@;
        lemma_from_version(segment, earliest);
        let searched = segment.from_version(earliest);
        lemma_search_stays_in_segment(
            history.ict_enablement,
            searched,
            timestamp,
            bound,
            commit,
        );
        assert(searched.commits[0].version >= earliest);
    }
}

/// While commit 0 is in the log, asking for recreatable commits changes no answer.
///
/// Its entry comes before any other commit in a listing that could be read up to it.
pub proof fn law_recreatable_matches_published_with_commit_zero(
    history: TableHistory,
    timestamp: Timestamp,
    bound: Bound,
    r: Result<CommitAt, LogHistoryError>,
    zero: int,
)
    requires
        history.wf(),
        history.listing is Ok,
        ({
            let listing = history.listing->Ok_0@;
            &&& 0 <= zero < listing.len()
            &&& is_commit(listing, zero)
            &&& listing[zero]->Ok_0.version == 0
            &&& forall|j: int|
                0 <= j < zero ==> (#[trigger] listing[j]) is Ok && !is_commit(listing, j)
        }),
        history.version < u64::MAX,
        history.version < usize::MAX,
    ensures
        version_outcome(history, timestamp, bound, HistoryCommitType::Recreatable, r)
            <==> version_outcome(history, timestamp, bound, HistoryCommitType::Published, r),
{
    let listing = history.listing->Ok_0@;
    let log_root = history.log_root@;
    let version = history.version;
    let recreatable = HistoryCommitType::Recreatable;
    let published = HistoryCommitType::Published;
    assert(recreatable_outcome(listing, log_root, None, Ok(0))) by {
        assert(ends_recreatable_scan(listing, zero));
        assert forall|j: int| 0 <= j < zero implies !#[trigger] ends_recreatable_scan(
            listing,
            j,
        ) by {
            assert(listing[j] is Ok);
        }
    }
    assert(searches_from(history, recreatable, 0) && searches_from(history, published, 0));
    assert forall|limit: Result<Option<usize>, LogHistoryError>|
        #![trigger limit_outcome(history.listing, log_root, version, recreatable, limit)]
        #![trigger limit_outcome(history.listing, log_root, version, published, limit)]
        (limit_outcome(history.listing, log_root, version, recreatable, limit) || limit_outcome(
            history.listing,
            log_root,
            version,
            published,
            limit,
        )) implies limit is Ok && first_searched(version, limit->Ok_0) == 0 by {
        if limit_outcome(history.listing, log_root, version, recreatable, limit) {
            lemma_limit(history, recreatable, 0, limit);
        }
    }
    let all: Result<Option<usize>, LogHistoryError> = Ok(None);
    let counted: Result<Option<usize>, LogHistoryError> = Ok(commits_between(0, version));
    let earliest: DeltaResult<Version> = Ok(0);
    assert(earliest_outcome(listing, log_root, None, recreatable, earliest));
    assert(limit_outcome(history.listing, log_root, version, published, all));
    assert(limit_outcome(history.listing, log_root, version, recreatable, counted));
}

/// While commit 0 is in the log, a query for recreatable commits and one for published commits find
/// the same commit, or both fail.
pub proof fn law_commit_types_agree_with_commit_zero(
    history: TableHistory,
    timestamp: Timestamp,
    bound: Bound,
    published: Result<CommitAt, LogHistoryError>,
    recreatable: Result<CommitAt, LogHistoryError>,
    zero: int,
)
    requires
        history.wf(),
        history.listing is Ok,
        ({
            let listing = history.listing->Ok_0@;
            &&& 0 <= zero < listing.len()
            &&& is_commit(listing, zero)
            &&& listing[zero]->Ok_0.version == 0
            &&& forall|j: int|
                0 <= j < zero ==> (#[trigger] listing[j]) is Ok && !is_commit(listing, j)
        }),
        history.version < u64::MAX,
        history.version < usize::MAX,
        version_outcome(history, timestamp, bound, HistoryCommitType::Published, published),
        version_outcome(history, timestamp, bound, HistoryCommitType::Recreatable, recreatable),
    ensures
        published is Ok <==> recreatable is Ok,
        published is Ok ==> published == recreatable,
{
    law_recreatable_matches_published_with_commit_zero(
        history,
        timestamp,
        bound,
        recreatable,
        zero,
    );
    law_query_has_one_answer(
        history,
        timestamp,
        bound,
        HistoryCommitType::Published,
        published,
        recreatable,
    );
}

/// A query has one answer: another one finds the same commit, or fails as well.
pub proof fn law_query_has_one_answer(
    history: TableHistory,
    timestamp: Timestamp,
    bound: Bound,
    commit_type: HistoryCommitType,
    r: Result<CommitAt, LogHistoryError>,
    other: Result<CommitAt, LogHistoryError>,
)
    requires
        history.wf(),
        version_outcome(history, timestamp, bound, commit_type, r),
        version_outcome(history, timestamp, bound, commit_type, other),
    ensures
        r is Ok <==> other is Ok,
        r is Ok ==> r == other,
{
    if r is Ok {
        lemma_query_same_commit(history, timestamp, bound, commit_type, r, other);
    }
    if other is Ok {
        lemma_query_same_commit(history, timestamp, bound, commit_type, other, r);
    }
}

/// The part of the law for a query that finds a commit.
proof fn lemma_query_same_commit(
    history: TableHistory,
    timestamp: Timestamp,
    bound: Bound,
    commit_type: HistoryCommitType,
    r: Result<CommitAt, LogHistoryError>,
    other: Result<CommitAt, LogHistoryError>,
)
    requires
        history.wf(),
        r is Ok,
        version_outcome(history, timestamp, bound, commit_type, r),
        version_outcome(history, timestamp, bound, commit_type, other),
    ensures
        r == other,
{
    if snapshot_outcome(history.version, history.timestamp->Ok_0, timestamp, bound) is None {
        let listing = history.listing;
        let log_root = history.log_root@;
        let version = history.version;
        let limit = choose|limit: Result<Option<usize>, LogHistoryError>| #[trigger]
            limit_outcome(listing, log_root, version, commit_type, limit) && match (
                limit,
                history.segment,
            ) {
                (Ok(limit), Ok(segment)) => segment_outcome(
                    history.ict_enablement,
                    segment@.from_version(first_searched(version, limit)),
                    timestamp,
                    bound,
                    r,
                ),
                _ => false,
            };
        let first = first_searched(version, limit->Ok_0);
        assert(searches_from(history, commit_type, first)) by {
            if commit_type is Recreatable {
                let earliest = choose|earliest: DeltaResult<Version>| #[trigger]
                    earliest_outcome(listing->Ok_0@, log_root, None, commit_type, earliest)
                        && earliest is Ok && commits_between(earliest->Ok_0, version) is Some
                        && limit == Ok::<Option<usize>, LogHistoryError>(
                        commits_between(earliest->Ok_0, version),
                    );
                assert(earliest == Ok::<Version, Error>(first));
            }
        }
        lemma_query_searches(history, timestamp, bound, commit_type, first, r);
        lemma_query_searches(history, timestamp, bound, commit_type, first, other);
        lemma_limit(history, commit_type, first, limit);
        lemma_from_version(history.segment->Ok_0@, first);
        lemma_search_same_commit(
            history.ict_enablement,
            history.segment->Ok_0@.from_version(first),
            timestamp,
            bound,
            r,
            other,
        );
    }
}

/// A search that finds a commit finds no other.
proof fn lemma_search_same_commit(
    enablement: Result<InCommitTimestampEnablement, String>,
    segment: SegmentView,
    timestamp: Timestamp,
    bound: Bound,
    r: Result<CommitAt, LogHistoryError>,
    other: Result<CommitAt, LogHistoryError>,
)
    requires
        segment.wf(),
        r is Ok,
        segment_outcome(enablement, segment, timestamp, bound, r),
        segment_outcome(enablement, segment, timestamp, bound, other),
    ensures
        r == other,
{
    let commits = segment.commits;
    let bounds = choose|bounds: Result<TimestampSearchBounds, LogHistoryError>| #[trigger]
        search_bounds_outcome(enablement, commits, timestamp, bounds) && bounded_outcome(
            bounds,
            segment,
            timestamp,
            bound,
            r,
        );
    let other_bounds = choose|bounds: Result<TimestampSearchBounds, LogHistoryError>| #[trigger]
        search_bounds_outcome(enablement, commits, timestamp, bounds) && bounded_outcome(
            bounds,
            segment,
            timestamp,
            bound,
            other,
        );
    assert(bounds == other_bounds) by {
        if let Ok(InCommitTimestampEnablement::Enabled { enablement: Some((version, _)) }) =
            enablement {
            super::lemma_commits_before(commits, version);
        }
    }
    match bounds {
        Err(_) => {},
        Ok(TimestampSearchBounds::ExactMatch(_)) => {},
        Ok(TimestampSearchBounds::ICTSearchStartingFrom(lo)) => {
            let rest = commits.skip(lo as int);
            let reads = segment.reads.skip(lo as int);
            if rest.len() > 0 {
                let len = rest.len() as usize;
                lemma_ict_run_same_commit(
                    IctSearch {
                        timestamp,
                        bound,
                        len,
                        phase: super::ict::IctPhase::Probing { lo: 0, hi: len },
                    },
                    rest,
                    reads,
                    r,
                    other,
                );
            }
        },
        Ok(TimestampSearchBounds::FileModificationSearch) => {
            law_file_mod_search_has_one_answer(commits, timestamp, bound, r, other);
        },
        Ok(TimestampSearchBounds::FileModificationSearchUntil { index, .. }) => {
            let earlier = commits.take(index as int);
            if !(bound is LeastUpper && forall|i: int| !#[trigger]
                is_file_mod_bound(earlier, timestamp, bound, i)) {
                law_file_mod_search_has_one_answer(earlier, timestamp, bound, r, other);
            }
        },
    }
}

/// A search over in-commit timestamps that finds a commit finds no other.
proof fn lemma_ict_run_same_commit(
    search: IctSearch,
    commits: Seq<ParsedLogPath>,
    reads: Seq<IctRead>,
    r: Result<CommitAt, LogHistoryError>,
    other: Result<CommitAt, LogHistoryError>,
)
    requires
        search.wf(),
        search.len == commits.len(),
        r is Ok,
        ict_run(search, commits, reads, r),
        ict_run(search, commits, reads, other),
    ensures
        r == other,
    decreases search.fuel(),
{
    let read = reads[search.reads()];
    if search.phase is Probing && read is Ok {
        lemma_ict_run_same_commit(search.probed(read->Ok_0), commits, reads, r, other);
    }
}

// ---------------------------------------------------------------------------------------------
// The earliest version
// ---------------------------------------------------------------------------------------------

/// The query for the earliest version has one answer: another one finds the same version, or fails
/// as well.
pub proof fn law_earliest_version_has_one_answer(
    listing: Seq<ListedPath>,
    log_root: Seq<char>,
    ratified: Option<Version>,
    commit_type: HistoryCommitType,
    r: DeltaResult<Version>,
    other: DeltaResult<Version>,
)
    requires
        earliest_outcome(listing, log_root, ratified, commit_type, r),
        earliest_outcome(listing, log_root, ratified, commit_type, other),
    ensures
        r is Ok <==> other is Ok,
        r is Ok ==> r == other,
{
}

/// A last complete checkpoint is one that some entry completes.
pub(crate) proof fn lemma_last_checkpoint_completed(listing: Seq<ListedPath>, n: int)
    requires
        last_checkpoint(listing, n) is Some,
    ensures
        exists|i: int|
            0 <= i < n && #[trigger] completes_checkpoint(listing, i)
                && listing[i]->Ok_0.version == last_checkpoint(listing, n)->Some_0,
    decreases n,
{
    if !completes_checkpoint(listing, n - 1) {
        lemma_last_checkpoint_completed(listing, n - 1);
    } else {
        assert(0 <= n - 1 < n);
    }
}

/// The first commit is one of the entries, and no commit comes before it.
pub(crate) proof fn lemma_first_commit(listing: Seq<ListedPath>, n: int) -> (first: int)
    requires
        first_commit(listing, n) is Some,
    ensures
        0 <= first < n,
        is_commit(listing, first),
        listing[first]->Ok_0.version == first_commit(listing, n)->Some_0,
    decreases n,
{
    if first_commit(listing, n - 1) is Some {
        lemma_first_commit(listing, n - 1)
    } else {
        n - 1
    }
}

/// The earliest recreatable version can be reconstructed: it is that of commit 0, which is in the
/// log, or that of a checkpoint of which every part is in the log and which is no older than the
/// log's first commit.
pub proof fn law_recreatable_version_is_anchored(
    listing: Seq<ListedPath>,
    log_root: Seq<char>,
    ratified: Option<Version>,
    version: Version,
)
    requires
        recreatable_outcome(listing, log_root, ratified, Ok(version)),
    ensures
        ({
            ||| version == 0 && exists|i: int|
                0 <= i < listing.len() && #[trigger] is_commit(listing, i)
                    && listing[i]->Ok_0.version == 0
            ||| exists|i: int, c: int|
                #![trigger completes_checkpoint(listing, i), is_commit(listing, c)]
                0 <= i < listing.len() && 0 <= c < listing.len() && completes_checkpoint(listing, i)
                    && listing[i]->Ok_0.version == version && is_commit(listing, c)
                    && listing[c]->Ok_0.version <= version
        }),
{
    let r: DeltaResult<Version> = Ok(version);
    let i = choose|i: int| #[trigger]
        ends_recreatable_scan(listing, i) && 0 <= i < listing.len() && (forall|j: int|
            0 <= j < i ==> !#[trigger] ends_recreatable_scan(listing, j)) && match listing[i] {
            Err(text) => r == Err::<Version, Error>(Error::Engine(text)),
            Ok(_) => r == Ok::<Version, Error>(anchored_version(listing, i)),
        };
    assert(anchors(listing, i));
    if listing[i]->Ok_0.version == 0 {
        assert(is_commit(listing, i));
    } else {
        lemma_last_checkpoint_completed(listing, i);
        let k = choose|k: int|
            0 <= k < i && #[trigger] completes_checkpoint(listing, k)
                && listing[k]->Ok_0.version == last_checkpoint(listing, i)->Some_0;
        let c = lemma_first_commit(listing, i + 1);
        assert(completes_checkpoint(listing, k) && is_commit(listing, c));
    }
}

/// Where there is an earliest recreatable version, there is an earliest published one. In a listing
/// that goes from the lowest version up it is the lowest version of a commit, and not above the
/// recreatable one; and where it is 0, so is the recreatable one.
///
/// The last part leaves out a commit file 0 without content, which does not count as a commit from
/// which the table can be reconstructed.
pub proof fn law_recreatable_not_before_published(
    listing: Seq<ListedPath>,
    log_root: Seq<char>,
    ratified: Option<Version>,
    published: DeltaResult<Version>,
    recreatable: Version,
)
    requires
        forall|i: int, j: int|
            #![trigger listing[i], listing[j]]
            0 <= i <= j < listing.len() && listing[i] is Ok && listing[j] is Ok
                ==> listing[i]->Ok_0.version <= listing[j]->Ok_0.version,
        earliest_outcome(listing, log_root, ratified, HistoryCommitType::Published, published),
        earliest_outcome(
            listing,
            log_root,
            ratified,
            HistoryCommitType::Recreatable,
            Ok(recreatable),
        ),
    ensures
        published is Ok,
        exists|i: int|
            0 <= i < listing.len() && #[trigger] ends_published_scan(listing, i) && listing[i] is Ok
                && listing[i]->Ok_0.version == published->Ok_0,
        forall|i: int|
            0 <= i < listing.len() && listing[i] is Ok && #[trigger] ends_published_scan(listing, i)
                ==> published->Ok_0 <= listing[i]->Ok_0.version,
        published->Ok_0 <= recreatable,
        published->Ok_0 == 0 && (forall|i: int|
            0 <= i < listing.len() && (#[trigger] listing[i]) is Ok
                && listing[i]->Ok_0.file_type is Commit && listing[i]->Ok_0.version == 0 ==> counts(
                listing[i]->Ok_0,
            )) ==> recreatable == 0,
{
    let r: DeltaResult<Version> = Ok(recreatable);
    let end = choose|i: int| #[trigger]
        ends_recreatable_scan(listing, i) && 0 <= i < listing.len() && (forall|j: int|
            0 <= j < i ==> !#[trigger] ends_recreatable_scan(listing, j)) && match listing[i] {
            Err(text) => r == Err::<Version, Error>(Error::Engine(text)),
            Ok(_) => r == Ok::<Version, Error>(anchored_version(listing, i)),
        };
    assert(anchors(listing, end));
    assert(ends_published_scan(listing, end));
    let first = choose|i: int| #[trigger]
        ends_published_scan(listing, i) && 0 <= i < listing.len() && (forall|j: int|
            0 <= j < i ==> !#[trigger] ends_published_scan(listing, j)) && match listing[i] {
            Err(text) => published == Err::<Version, Error>(Error::Engine(text)),
            Ok(path) => published == Ok::<Version, Error>(path.version),
        };
    assert(first <= end);
    assert(listing[first] is Ok) by {
        if listing[first] is Err {
            assert(ends_recreatable_scan(listing, first));
        }
    }
    law_recreatable_version_is_anchored(listing, log_root, ratified, recreatable);
    let c = choose|i: int|
        0 <= i < listing.len() && #[trigger] is_commit(listing, i) && listing[i]->Ok_0.version
            <= recreatable;
    assert(ends_published_scan(listing, c));
    assert(first <= c);
    if published == Ok::<Version, Error>(0) && counts(listing[first]->Ok_0) {
        assert(ends_recreatable_scan(listing, first));
        assert(first == end);
    }
}

} // verus!
