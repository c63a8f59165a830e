//! What timestamp queries answer, in terms of the commits of the log and of their own times.

use vstd::prelude::*;

use super::earliest::earliest_outcome;
use super::error::{LogHistoryError, NearestTimestamp};
use super::file_mod::{lemma_monotonized_increases, monotonized};
use super::ict::lemma_ict_search_finds_bound;
use super::laws::{
    commit_timestamp, icts_follow_protocol, is_ict_start, is_timestamp_bound,
    law_query_finds_bound, lemma_monotonized_prefix, lemma_query_searches,
};
use super::search::Bound;
use super::{
    bounded_outcome, commits_before, commits_between, delta_outcome, lemma_commits_before,
    lemma_from_version, range_end_outcome, range_outcome, search_bounds_outcome, CommitAt,
    HistoryCommitType, InCommitTimestampEnablement, ParsedLogPath, TableHistory, Timestamp,
    TimestampSearchBounds,
};
use crate::error::{DeltaResult, Error};
use crate::Version;

verus! {

// ---------------------------------------------------------------------------------------------
// Times of commits
// ---------------------------------------------------------------------------------------------

/// Whether the commit of a version has an in-commit timestamp.
pub open spec fn has_ict(enablement: InCommitTimestampEnablement, version: Version) -> bool {
    match enablement {
        InCommitTimestampEnablement::NotEnabled => false,
        InCommitTimestampEnablement::Enabled { enablement: None } => true,
        InCommitTimestampEnablement::Enabled { enablement: Some((first, _)) } => version >= first,
    }
}

/// The time of a commit of the log: its in-commit timestamp where it has one, else the modification
/// time of its file.
pub open spec fn time_of(history: TableHistory, i: int) -> int {
    let segment = history.segment->Ok_0@;
    if has_ict(history.ict_enablement->Ok_0, segment.commits[i].version) {
        segment.reads[i]->Ok_0 as int
    } else {
        segment.commits[i].location.last_modified as int
    }
}

/// Whether the log was read, and the times of its commits increase with their versions. In-commit
/// timestamps begin at a commit of the log, if not before the first one, with the timestamp that the
/// table names for it. The snapshot is the last commit, with its time.
pub open spec fn times_increase(history: TableHistory) -> bool {
    let segment = history.segment->Ok_0@;
    let commits = segment.commits;
    &&& history.wf()
    &&& history.segment is Ok
    &&& history.ict_enablement is Ok
    &&& history.timestamp == Ok::<Timestamp, String>(
        time_of(history, commits.len() - 1) as i64,
    )
    &&& forall|i: int|
        0 <= i < commits.len() && has_ict(
            history.ict_enablement->Ok_0,
            (#[trigger] commits[i]).version,
        ) ==> segment.reads[i] is Ok
    &&& time_of(history, 0) > i64::MIN
    &&& forall|i: int, j: int|
        0 <= i < j < commits.len() ==> #[trigger] time_of(history, i) < #[trigger] time_of(
            history,
            j,
        )
    &&& history.ict_enablement->Ok_0 matches InCommitTimestampEnablement::Enabled {
        enablement: Some((version, ict)),
    } ==> (commits[0].version < version ==> exists|i: int|
        0 < i < commits.len() && (#[trigger] commits[i]).version == version && time_of(history, i)
            == ict)
}

/// Modification times are pushed apart where they do not increase: the time that counts for a commit
/// is the least one that is no earlier than that of its file and later than the one before it.
pub proof fn law_times_are_pushed_apart(commits: Seq<ParsedLogPath>, i: int, time: int)
    requires
        0 < i < commits.len(),
        commits[i].location.last_modified <= time,
        monotonized(commits, i - 1) < time <= i64::MAX,
    ensures
        monotonized(commits, i - 1) < monotonized(commits, i),
        commits[i].location.last_modified <= monotonized(commits, i) <= time,
{
}

/// Times that are pushed apart never decrease, and stay timestamps.
pub proof fn law_pushed_times_stay_timestamps(commits: Seq<ParsedLogPath>, i: int, j: int)
    requires
        0 <= i <= j < commits.len(),
    ensures
        i64::MIN <= monotonized(commits, i) <= monotonized(commits, j) <= i64::MAX,
{
    lemma_monotonized_increases(commits, i, j);
}

/// Modification times that increase count as they are.
pub proof fn law_increasing_times_count_as_they_are(commits: Seq<ParsedLogPath>, i: int)
    requires
        0 <= i < commits.len(),
        commits[0].location.last_modified > i64::MIN,
        forall|j: int, k: int|
            #![trigger commits[j], commits[k]]
            0 <= j < k <= i ==> commits[j].location.last_modified
                < commits[k].location.last_modified,
    ensures
        monotonized(commits, i) == commits[i].location.last_modified,
    decreases i,
{
    if i > 0 {
        law_increasing_times_count_as_they_are(commits, i - 1);
        assert(commits[i - 1].location.last_modified < commits[i].location.last_modified);
    } else {
        reveal_with_fuel(monotonized, 2);
    }
}

/// Where in-commit timestamps begin.
spec fn ict_begin(history: TableHistory) -> int {
    let commits = history.segment->Ok_0@.commits;
    match history.ict_enablement->Ok_0 {
        InCommitTimestampEnablement::NotEnabled => commits.len() as int,
        InCommitTimestampEnablement::Enabled { enablement: None } => 0,
        InCommitTimestampEnablement::Enabled { enablement: Some((version, _)) } => commits_before(
            commits,
            version,
        ) as int,
    }
}

proof fn lemma_times(history: TableHistory)
    requires
        times_increase(history),
    ensures
        ({
            let segment = history.segment->Ok_0@;
            let start = ict_begin(history);
            &&& 0 <= start <= segment.commits.len()
            &&& is_ict_start(history.ict_enablement->Ok_0, segment.commits, start)
            &&& icts_follow_protocol(history.ict_enablement->Ok_0, segment, start)
            &&& forall|i: int|
                0 <= i < segment.commits.len() ==> #[trigger] commit_timestamp(segment, start, i)
                    == time_of(history, i)
        }),
{
    let segment = history.segment->Ok_0@;
    let commits = segment.commits;
    let reads = segment.reads;
    let start = ict_begin(history);
    let enablement = history.ict_enablement->Ok_0;
    if let InCommitTimestampEnablement::Enabled { enablement: Some((version, _)) } = enablement {
        lemma_commits_before(commits, version);
    }
    assert forall|i: int| 0 <= i < commits.len() implies has_ict(
        enablement,
        (#[trigger] commits[i]).version,
    ) == (i >= start) by {
    }
    assert forall|i: int| 0 <= i < commits.len() implies #[trigger] commit_timestamp(
        segment,
        start,
        i,
    ) == time_of(history, i) by {
        let _ = commits[i];
        if i < start {
            let _ = commits[0];
            assert(time_of(history, 0) == commits[0].location.last_modified);
            assert forall|j: int, k: int|
                #![trigger commits[j], commits[k]]
                0 <= j < k <= i implies commits[j].location.last_modified
                < commits[k].location.last_modified by {
                assert(time_of(history, j) < time_of(history, k));
            }
            law_increasing_times_count_as_they_are(commits, i);
        }
    }
    let rest = reads.skip(start);
    assert forall|i: int| 0 <= i < rest.len() implies (#[trigger] rest[i]) is Ok by {
        let _ = commits[i + start];
        assert(rest[i] == reads[i + start]);
    }
    assert forall|i: int, j: int|
        #![trigger rest[i], rest[j]]
        0 <= i < j < rest.len() implies rest[i]->Ok_0 < rest[j]->Ok_0 by {
        let _ = commits[i + start];
        let _ = commits[j + start];
        assert(time_of(history, i + start) < time_of(history, j + start));
    }
    if let InCommitTimestampEnablement::Enabled { enablement: Some((version, ict)) } = enablement {
        if start > 0 {
            let _ = commits[0];
            let at = choose|i: int|
                0 < i < commits.len() && (#[trigger] commits[i]).version == version && time_of(
                    history,
                    i,
                ) == ict;
            assert(at >= start);
            if at > start {
                assert(commits[start].version < commits[at].version);
            }
            assert(at == start);
            assert(time_of(history, start - 1) < time_of(history, start));
            assert(commit_timestamp(segment, start, start - 1) == time_of(history, start - 1));
            assert(reads[start] is Ok);
        }
    }
}

// ---------------------------------------------------------------------------------------------
// Single queries
// ---------------------------------------------------------------------------------------------

/// Whether a commit of the log is the last one at or before a timestamp, or the first one at or
/// after it, by its own time.
pub open spec fn is_nearest(
    history: TableHistory,
    timestamp: Timestamp,
    bound: Bound,
    i: int,
) -> bool {
    let len = history.segment->Ok_0@.commits.len();
    match bound {
        Bound::GreatestLower => {
            &&& time_of(history, i) <= timestamp
            &&& forall|j: int| i < j < len ==> #[trigger] time_of(history, j) > timestamp
        },
        Bound::LeastUpper => {
            &&& time_of(history, i) >= timestamp
            &&& forall|j: int| 0 <= j < i ==> #[trigger] time_of(history, j) < timestamp
        },
    }
}

/// Whether a commit of the log is on the asked side of a timestamp.
pub open spec fn is_on_side(
    history: TableHistory,
    timestamp: Timestamp,
    bound: Bound,
    i: int,
) -> bool {
    match bound {
        Bound::GreatestLower => time_of(history, i) <= timestamp,
        Bound::LeastUpper => time_of(history, i) >= timestamp,
    }
}

/// A query among all commits of a log whose times increase finds the version of the commit nearest
/// to the timestamp on the asked side, with its time: the greatest version at or before it, or the
/// least one at or after it. There is none only where no commit is on that side. Which checkpoints
/// the log has makes no difference.
pub proof fn law_query_finds_the_nearest_commit(
    history: TableHistory,
    timestamp: Timestamp,
    bound: Bound,
    r: DeltaResult<CommitAt>,
)
    requires
        times_increase(history),
        delta_outcome(history, timestamp, bound, HistoryCommitType::Published, r),
    ensures
        match r {
            Ok(commit) => exists|i: int|
                {
                    &&& 0 <= i < history.segment->Ok_0@.commits.len()
                    &&& commit.version == (#[trigger] history.segment->Ok_0@.commits[i]).version
                    &&& commit.timestamp == time_of(history, i)
                    &&& is_nearest(history, timestamp, bound, i)
                },
            Err(_) => forall|i: int|
                0 <= i < history.segment->Ok_0@.commits.len() ==> !#[trigger] is_on_side(
                    history,
                    timestamp,
                    bound,
                    i,
                ),
        },
{
    let segment = history.segment->Ok_0@;
    let commits = segment.commits;
    let len = commits.len() as int;
    let start = ict_begin(history);
    lemma_times(history);
    lemma_from_version(segment, 0);
    assert(commit_timestamp(segment, start, len - 1) == time_of(history, len - 1));
    if len > 1 {
        assert(commit_timestamp(segment, start, len - 2) == time_of(history, len - 2));
        assert(time_of(history, len - 2) < time_of(history, len - 1));
    }
    let found: Result<CommitAt, LogHistoryError> = match r {
        Ok(commit) => Ok(commit),
        Err(Error::LogHistory(inner)) => Err(*inner),
        Err(_) => arbitrary(),
    };
    law_query_finds_bound(
        history,
        HistoryCommitType::Published,
        0,
        start,
        timestamp,
        bound,
        found,
    );
    match r {
        Ok(commit) => {
            let i = choose|i: int| #[trigger]
                is_timestamp_bound(segment, start, timestamp, bound, i) && commit.version
                    == commits[i].version && commit.timestamp == commit_timestamp(
                    segment,
                    start,
                    i,
                );
            let _ = commits[i];
            lemma_nearest(history, start, timestamp, bound, i);
        },
        Err(_) => {
            assert forall|i: int| 0 <= i < len implies !#[trigger] is_on_side(
                history,
                timestamp,
                bound,
                i,
            ) by {
                if is_on_side(history, timestamp, bound, i) {
                    let k = lemma_some_nearest(history, timestamp, bound, i);
                    lemma_nearest_is_bound(history, start, timestamp, bound, k);
                }
            }
        },
    }
}

proof fn lemma_nearest(
    history: TableHistory,
    start: int,
    timestamp: Timestamp,
    bound: Bound,
    i: int,
)
    requires
        is_timestamp_bound(history.segment->Ok_0@, start, timestamp, bound, i),
        forall|j: int|
            0 <= j < history.segment->Ok_0@.commits.len() ==> #[trigger] commit_timestamp(
                history.segment->Ok_0@,
                start,
                j,
            ) == time_of(history, j),
    ensures
        is_nearest(history, timestamp, bound, i),
{
    let segment = history.segment->Ok_0@;
    assert(commit_timestamp(segment, start, i) == time_of(history, i));
    match bound {
        Bound::GreatestLower => {
            assert forall|j: int| i < j < segment.commits.len() implies #[trigger] time_of(
                history,
                j,
            ) > timestamp by {
                assert(commit_timestamp(segment, start, j) == time_of(history, j));
            }
        },
        Bound::LeastUpper => {
            assert forall|j: int| 0 <= j < i implies #[trigger] time_of(history, j) < timestamp by {
                assert(commit_timestamp(segment, start, j) == time_of(history, j));
            }
        },
    }
}

proof fn lemma_nearest_is_bound(
    history: TableHistory,
    start: int,
    timestamp: Timestamp,
    bound: Bound,
    i: int,
)
    requires
        0 <= i < history.segment->Ok_0@.commits.len(),
        is_nearest(history, timestamp, bound, i),
        forall|j: int|
            0 <= j < history.segment->Ok_0@.commits.len() ==> #[trigger] commit_timestamp(
                history.segment->Ok_0@,
                start,
                j,
            ) == time_of(history, j),
    ensures
        is_timestamp_bound(history.segment->Ok_0@, start, timestamp, bound, i),
{
    let segment = history.segment->Ok_0@;
    assert(commit_timestamp(segment, start, i) == time_of(history, i));
}

proof fn lemma_some_nearest(
    history: TableHistory,
    timestamp: Timestamp,
    bound: Bound,
    i: int,
) -> (k: int)
    requires
        times_increase(history),
        0 <= i < history.segment->Ok_0@.commits.len(),
        is_on_side(history, timestamp, bound, i),
    ensures
        0 <= k < history.segment->Ok_0@.commits.len(),
        is_nearest(history, timestamp, bound, k),
    decreases
        match bound {
            Bound::GreatestLower => history.segment->Ok_0@.commits.len() - i,
            Bound::LeastUpper => i,
        },
{
    let len = history.segment->Ok_0@.commits.len() as int;
    match bound {
        Bound::GreatestLower => {
            if i + 1 < len && time_of(history, i + 1) <= timestamp {
                lemma_some_nearest(history, timestamp, bound, i + 1)
            } else {
                assert forall|j: int| i < j < len implies #[trigger] time_of(history, j)
                    > timestamp by {
                    if j > i + 1 {
                        assert(time_of(history, i + 1) < time_of(history, j));
                    }
                }
                i
            }
        },
        Bound::LeastUpper => {
            if i > 0 && time_of(history, i - 1) >= timestamp {
                lemma_some_nearest(history, timestamp, bound, i - 1)
            } else {
                assert forall|j: int| 0 <= j < i implies #[trigger] time_of(history, j)
                    < timestamp by {
                    if j < i - 1 {
                        assert(time_of(history, j) < time_of(history, i - 1));
                    }
                }
                i
            }
        },
    }
}

/// Where no commit of a log whose times increase is on the asked side of a timestamp, the error says
/// so, with the time of the commit that comes nearest: the first one where all are after the
/// timestamp, the last one where all are before it.
pub proof fn law_error_names_the_nearest_time(
    history: TableHistory,
    timestamp: Timestamp,
    bound: Bound,
    error: Error,
)
    requires
        times_increase(history),
        delta_outcome(history, timestamp, bound, HistoryCommitType::Published, Err(error)),
    ensures
        error matches Error::LogHistory(inner) && (*inner matches LogHistoryError::TimestampOutOfRange {
            timestamp: asked,
            bound: side,
            nearest_timestamp,
        } && asked == timestamp && side == bound && match bound {
            Bound::GreatestLower => nearest_timestamp matches NearestTimestamp::Earliest(time)
                && time == time_of(history, 0),
            Bound::LeastUpper => nearest_timestamp matches NearestTimestamp::Latest(time) && time
                == time_of(history, history.segment->Ok_0@.commits.len() - 1),
        }),
{
    let segment = history.segment->Ok_0@;
    let commits = segment.commits;
    let len = commits.len() as int;
    let start = ict_begin(history);
    let r: Result<CommitAt, LogHistoryError> = Err(*error->LogHistory_0);
    lemma_times(history);
    lemma_from_version(segment, 0);
    law_query_finds_the_nearest_commit(history, timestamp, bound, Err(error));
    assert(!is_on_side(history, timestamp, bound, 0));
    assert(!is_on_side(history, timestamp, bound, len - 1));
    let latest = time_of(history, len - 1);
    assert(i64::MIN <= latest <= i64::MAX);
    if bound is GreatestLower {
        lemma_query_searches(history, timestamp, bound, HistoryCommitType::Published, 0, r);
        let enablement = history.ict_enablement->Ok_0;
        let bounds = choose|bounds: Result<TimestampSearchBounds, LogHistoryError>| #[trigger]
            search_bounds_outcome(Ok(enablement), commits, timestamp, bounds) && bounded_outcome(
                bounds,
                segment,
                timestamp,
                bound,
                r,
            );
        assert(commits.last() == commits[len - 1]);
        assert(commit_timestamp(segment, start, 0) == time_of(history, 0));
        match bounds {
            Err(_) => {
                assert(false);
            },
            Ok(TimestampSearchBounds::ExactMatch(_)) => {},
            Ok(TimestampSearchBounds::ICTSearchStartingFrom(lo)) => {
                assert(lo == start) by {
                    if lo < start {
                        assert(commits[lo as int].version >= commits[0].version);
                    }
                    if start < lo {
                        assert(commits[start].version >= commits[0].version);
                    }
                }
                if start > 0 {
                    assert(commit_timestamp(segment, start, start) == time_of(history, start));
                    assert(!is_on_side(history, timestamp, bound, start));
                } else {
                    lemma_ict_search_finds_bound(
                        commits.skip(start),
                        segment.reads.skip(start),
                        timestamp,
                        bound,
                        r,
                    );
                    assert(segment.reads.skip(start)[0] == segment.reads[0]);
                }
            },
            Ok(TimestampSearchBounds::FileModificationSearch) => {},
            Ok(TimestampSearchBounds::FileModificationSearchUntil { index, .. }) => {
                assert(index == start) by {
                    if index < start {
                        assert(commits[index as int].version >= commits[0].version);
                    }
                    if start < index {
                        assert(commits[start].version >= commits[0].version);
                    }
                }
                lemma_monotonized_prefix(commits, index as int, 0);
            },
        }
    }
}

/// Whether a commit of a log is the last one at or before a timestamp, or the first one at or after
/// it, by the modification time of its file, among those from a version on.
pub open spec fn is_nearest_from(
    commits: Seq<ParsedLogPath>,
    first: Version,
    timestamp: Timestamp,
    bound: Bound,
    i: int,
) -> bool {
    &&& 0 <= i < commits.len()
    &&& commits[i].version >= first
    &&& match bound {
        Bound::GreatestLower => {
            &&& commits[i].location.last_modified <= timestamp
            &&& forall|j: int|
                i < j < commits.len() ==> (#[trigger] commits[j]).location.last_modified
                    > timestamp
        },
        Bound::LeastUpper => {
            &&& commits[i].location.last_modified >= timestamp
            &&& forall|j: int|
                0 <= j < i && (#[trigger] commits[j]).version >= first
                    ==> commits[j].location.last_modified < timestamp
        },
    }
}

/// A query for recreatable commits, on a table whose commits have increasing modification times and
/// no in-commit timestamps, finds the nearest commit among those from the earliest recreatable
/// version on.
pub proof fn law_recreatable_query_finds_the_nearest_from_the_earliest(
    history: TableHistory,
    timestamp: Timestamp,
    bound: Bound,
    earliest: Version,
    commit: CommitAt,
)
    requires
        times_increase(history),
        history.ict_enablement == Ok::<InCommitTimestampEnablement, String>(
            InCommitTimestampEnablement::NotEnabled,
        ),
        history.listing is Ok,
        earliest_outcome(
            history.listing->Ok_0@,
            history.log_root@,
            None,
            HistoryCommitType::Recreatable,
            Ok(earliest),
        ),
        commits_between(earliest, history.version) is Some,
        delta_outcome(history, timestamp, bound, HistoryCommitType::Recreatable, Ok(commit)),
    ensures
        exists|i: int|
            {
                &&& #[trigger] is_nearest_from(
                    history.segment->Ok_0@.commits,
                    earliest,
                    timestamp,
                    bound,
                    i,
                )
                &&& commit.version == history.segment->Ok_0@.commits[i].version
                &&& commit.timestamp == history.segment->Ok_0@.commits[i].location.last_modified
            },
{
    let whole = history.segment->Ok_0@;
    let commits = whole.commits;
    let segment = whole.from_version(earliest);
    let rest = segment.commits;
    let before = commits_before(commits, earliest) as int;
    let start = rest.len() as int;
    lemma_from_version(whole, earliest);
    lemma_commits_before(commits, earliest);
    assert forall|i: int| 0 <= i < rest.len() implies #[trigger] rest[i] == commits[i + before] by {}
    assert forall|i: int| 0 <= i < commits.len() implies #[trigger] time_of(history, i)
        == commits[i].location.last_modified by {}
    assert forall|i: int| 0 <= i < rest.len() implies #[trigger] commit_timestamp(segment, start, i)
        == rest[i].location.last_modified by {
        assert(time_of(history, 0) <= time_of(history, before)) by {
            if before > 0 {
                assert(time_of(history, 0) < time_of(history, before));
            }
        }
        assert forall|j: int, k: int|
            #![trigger rest[j], rest[k]]
            0 <= j < k <= i implies rest[j].location.last_modified
            < rest[k].location.last_modified by {
            assert(time_of(history, j + before) < time_of(history, k + before));
        }
        law_increasing_times_count_as_they_are(rest, i);
    }
    let last = rest.len() - 1;
    assert(rest[last] == commits[commits.len() - 1]);
    assert(commit_timestamp(segment, start, last) == time_of(history, commits.len() - 1));
    if last > 0 {
        assert(commit_timestamp(segment, start, last - 1) == time_of(history, last - 1 + before));
        assert(time_of(history, last - 1 + before) < time_of(history, last + before));
    }
    assert(segment.reads.skip(start) =~= Seq::empty());
    law_query_finds_bound(
        history,
        HistoryCommitType::Recreatable,
        earliest,
        start,
        timestamp,
        bound,
        Ok(commit),
    );
    let k = choose|k: int| #[trigger]
        is_timestamp_bound(segment, start, timestamp, bound, k) && commit.version == rest[k].version
            && commit.timestamp == commit_timestamp(segment, start, k);
    let i = k + before;
    assert(rest[k] == commits[i]);
    assert(commit_timestamp(segment, start, k) == rest[k].location.last_modified);
    assert forall|j: int| i < j < commits.len() && bound is GreatestLower implies (
    #[trigger] commits[j]).location.last_modified > timestamp by {
        assert(commit_timestamp(segment, start, j - before) > timestamp);
        assert(rest[j - before] == commits[j]);
    }
    assert forall|j: int|
        0 <= j < i && (#[trigger] commits[j]).version >= earliest && bound is LeastUpper implies
        commits[j].location.last_modified < timestamp by {
        if j < before {
            assert(commits[j].version < earliest);
        }
        assert(commit_timestamp(segment, start, j - before) < timestamp);
        assert(rest[j - before] == commits[j]);
    }
    assert(is_nearest_from(commits, earliest, timestamp, bound, i));
}

// ---------------------------------------------------------------------------------------------
// Ranges
// ---------------------------------------------------------------------------------------------

/// Whether a time is within a range of timestamps, both ends included.
pub open spec fn within(start: Timestamp, end: Option<Timestamp>, time: int) -> bool {
    start <= time && (end matches Some(end) ==> time <= end)
}

/// A range of timestamps over a log whose times increase covers just the commits within it, whatever
/// checkpoints the log has: the versions that it gives are those of commits of the log, and a commit
/// of the log lies between them exactly where its time lies within the range. The first version is
/// the least one at or after the start, and the last one the greatest at or before the end.
pub proof fn law_range_covers_the_commits_within_it(
    history: TableHistory,
    start: Timestamp,
    end: Option<Timestamp>,
    first: Version,
    last: Option<Version>,
    k: int,
)
    requires
        times_increase(history),
        range_outcome(history, start, end, Ok((first, last))),
        0 <= k < history.segment->Ok_0@.commits.len(),
    ensures
        ({
            let commits = history.segment->Ok_0@.commits;
            let version = commits[k].version;
            &&& last is Some <==> end is Some
            &&& last matches Some(last) ==> first <= last
            &&& first <= version <==> time_of(history, k) >= start
            &&& last matches Some(last) ==> (version <= last <==> time_of(history, k) <= end->0)
            &&& within(start, end, time_of(history, k)) <==> first <= version && (last matches Some(
                last,
            ) ==> version <= last)
            &&& exists|i: int| 0 <= i < commits.len() && (#[trigger] commits[i]).version == first
            &&& last matches Some(last) ==> exists|i: int|
                0 <= i < commits.len() && (#[trigger] commits[i]).version == last
        }),
{
    let commits = history.segment->Ok_0@.commits;
    let begin = choose|begin: DeltaResult<CommitAt>| #[trigger]
        delta_outcome(history, start, Bound::LeastUpper, HistoryCommitType::Published, begin)
            && match (begin, end) {
            (Err(error), _) => false,
            (Ok(begin), None) => (first, last) == (begin.version, None::<Version>),
            (Ok(begin), Some(end)) => range_end_outcome(
                history,
                start,
                begin.version,
                end,
                Ok((first, last)),
            ),
        };
    law_query_finds_the_nearest_commit(history, start, Bound::LeastUpper, begin);
    let commit = begin->Ok_0;
    assert(commit.version == first);
    let i = choose|i: int|
        {
            &&& 0 <= i < commits.len()
            &&& first == (#[trigger] commits[i]).version
            &&& commit.timestamp == time_of(history, i)
            &&& is_nearest(history, start, Bound::LeastUpper, i)
        };
    lemma_position_by_version(history, i, k);
    if let Some(limit) = end {
        let finish = choose|finish: DeltaResult<CommitAt>| #[trigger]
            delta_outcome(
                history,
                limit,
                Bound::GreatestLower,
                HistoryCommitType::Published,
                finish,
            ) && match finish {
                Err(_) => false,
                Ok(commit) => first <= commit.version && last == Some(commit.version),
            };
        law_query_finds_the_nearest_commit(history, limit, Bound::GreatestLower, finish);
        let final_commit = finish->Ok_0;
        let j = choose|j: int|
            {
                &&& 0 <= j < commits.len()
                &&& final_commit.version == (#[trigger] commits[j]).version
                &&& final_commit.timestamp == time_of(history, j)
                &&& is_nearest(history, limit, Bound::GreatestLower, j)
            };
        lemma_position_by_version(history, j, k);
    }
}

proof fn lemma_position_by_version(history: TableHistory, i: int, k: int)
    requires
        times_increase(history),
        0 <= i < history.segment->Ok_0@.commits.len(),
        0 <= k < history.segment->Ok_0@.commits.len(),
    ensures
        history.segment->Ok_0@.commits[i].version <= history.segment->Ok_0@.commits[k].version
            <==> i <= k,
        history.segment->Ok_0@.commits[k].version <= history.segment->Ok_0@.commits[i].version
            <==> k <= i,
        time_of(history, i) <= time_of(history, k) <==> i <= k,
        time_of(history, k) <= time_of(history, i) <==> k <= i,
{
    let commits = history.segment->Ok_0@.commits;
    if i < k {
        assert(commits[i].version < commits[k].version);
        assert(time_of(history, i) < time_of(history, k));
    } else if k < i {
        assert(commits[k].version < commits[i].version);
        assert(time_of(history, k) < time_of(history, i));
    }
}

/// A range of timestamps over a log whose times increase gives versions exactly where some commit of
/// the log lies within it.
pub proof fn law_range_is_found_where_it_holds_a_commit(
    history: TableHistory,
    start: Timestamp,
    end: Option<Timestamp>,
    r: DeltaResult<(Version, Option<Version>)>,
)
    requires
        times_increase(history),
        range_outcome(history, start, end, r),
    ensures
        r is Ok <==> exists|k: int|
            0 <= k < history.segment->Ok_0@.commits.len() && within(
                start,
                end,
                #[trigger] time_of(history, k),
            ),
{
    let commits = history.segment->Ok_0@.commits;
    match r {
        Ok((first, last)) => {
            law_range_covers_the_commits_within_it(history, start, end, first, last, 0);
            let i = choose|i: int| 0 <= i < commits.len() && (#[trigger] commits[i]).version == first;
            law_range_covers_the_commits_within_it(history, start, end, first, last, i);
            assert(within(start, end, time_of(history, i)));
        },
        Err(_) => {
            if exists|k: int|
                0 <= k < commits.len() && within(start, end, #[trigger] time_of(history, k)) {
                let k = choose|k: int|
                    0 <= k < commits.len() && within(start, end, #[trigger] time_of(history, k));
                lemma_range_is_found(history, start, end, r, k);
            }
        },
    }
}

proof fn lemma_range_is_found(
    history: TableHistory,
    start: Timestamp,
    end: Option<Timestamp>,
    r: DeltaResult<(Version, Option<Version>)>,
    k: int,
)
    requires
        times_increase(history),
        range_outcome(history, start, end, r),
        0 <= k < history.segment->Ok_0@.commits.len(),
        within(start, end, time_of(history, k)),
    ensures
        r is Ok,
{
    let commits = history.segment->Ok_0@.commits;
    let begin = choose|begin: DeltaResult<CommitAt>| #[trigger]
        delta_outcome(history, start, Bound::LeastUpper, HistoryCommitType::Published, begin)
            && match (begin, end) {
            (Err(error), _) => r == Err::<(Version, Option<Version>), Error>(error),
            (Ok(begin), None) => r == Ok::<(Version, Option<Version>), Error>(
                (begin.version, None),
            ),
            (Ok(begin), Some(end)) => range_end_outcome(
                history,
                start,
                begin.version,
                end,
                r,
            ),
        };
    law_query_finds_the_nearest_commit(history, start, Bound::LeastUpper, begin);
    assert(is_on_side(history, start, Bound::LeastUpper, k));
    let commit = begin->Ok_0;
    let i = choose|i: int|
        {
            &&& 0 <= i < commits.len()
            &&& commit.version == (#[trigger] commits[i]).version
            &&& commit.timestamp == time_of(history, i)
            &&& is_nearest(history, start, Bound::LeastUpper, i)
        };
    assert(i <= k) by {
        if k < i {
            assert(time_of(history, k) < start);
        }
    }
    if let Some(limit) = end {
        let finish = choose|finish: DeltaResult<CommitAt>| #[trigger]
            delta_outcome(
                history,
                limit,
                Bound::GreatestLower,
                HistoryCommitType::Published,
                finish,
            ) && match finish {
                Err(error) => r == Err::<(Version, Option<Version>), Error>(error),
                Ok(last) => commit.version <= last.version ==> r is Ok,
            };
        law_query_finds_the_nearest_commit(history, limit, Bound::GreatestLower, finish);
        assert(is_on_side(history, limit, Bound::GreatestLower, k));
        let last = finish->Ok_0;
        let j = choose|j: int|
            {
                &&& 0 <= j < commits.len()
                &&& last.version == (#[trigger] commits[j]).version
                &&& last.timestamp == time_of(history, j)
                &&& is_nearest(history, limit, Bound::GreatestLower, j)
            };
        assert(k <= j) by {
            if j < k {
                assert(time_of(history, k) > limit);
            }
        }
        lemma_position_by_version(history, i, j);
    }
}

/// A range that ends before it starts is refused.
pub proof fn law_range_does_not_run_backwards(
    history: TableHistory,
    start: Timestamp,
    end: Timestamp,
    r: DeltaResult<(Version, Option<Version>)>,
)
    requires
        end < start,
        range_outcome(history, start, Some(end), r),
    ensures
        r matches Err(Error::LogHistory(error)) && *error == (
        LogHistoryError::InvalidTimestampRange { start_timestamp: start, end_timestamp: end }),
{
}

} // verus!
