//! Which in-commit timestamps a query reads.

use vstd::prelude::*;

use super::earliest::earliest_outcome;
use super::error::LogHistoryError;
use super::ict::ict_outcome;
use super::laws::law_earliest_version_has_one_answer;
use super::search::Bound;
use super::{
    answer_from_snapshot, bounded_outcome, first_searched, get_timestamp_search_bounds,
    lemma_commits_before, lemma_from_version, limit_outcome, listing_limit, search_bounds_outcome,
    search_start, segment_outcome, snapshot_outcome, version_index, version_outcome, CommitAt,
    HistoryCommitType, InCommitTimestampEnablement, LogSegment, ParsedLogPath, SegmentView,
    TableHistory, Timestamp, TimestampSearchBounds,
};
use crate::error::{DeltaResult, Error};
use crate::Version;

verus! {

/// Whether two histories agree on everything but what reading in-commit timestamps gives.
pub open spec fn same_but_reads(a: TableHistory, b: TableHistory) -> bool {
    &&& a.version == b.version
    &&& a.log_root@ == b.log_root@
    &&& a.timestamp == b.timestamp
    &&& a.ict_enablement == b.ict_enablement
    &&& a.listing == b.listing
    &&& match (a.segment, b.segment) {
        (Ok(s), Ok(t)) => s@.commits == t@.commits && s@.reads.len() == t@.reads.len(),
        (Err(s), Err(t)) => s == t,
        _ => false,
    }
}

/// How many commits a query may return has one answer, where it has one.
proof fn lemma_limit_has_one_answer(
    history: TableHistory,
    commit_type: HistoryCommitType,
    limit: Result<Option<usize>, LogHistoryError>,
    other: Result<Option<usize>, LogHistoryError>,
)
    requires
        limit_outcome(
            history.listing,
            history.log_root@,
            history.version,
            commit_type,
            limit,
        ),
        limit_outcome(
            history.listing,
            history.log_root@,
            history.version,
            commit_type,
            other,
        ),
    ensures
        limit is Ok <==> other is Ok,
        limit is Ok ==> limit == other,
{
    if commit_type is Recreatable && history.listing is Ok {
        let listing = history.listing->Ok_0@;
        let log_root = history.log_root@;
        assert forall|a: DeltaResult<Version>, b: DeltaResult<Version>|
            #![trigger earliest_outcome(listing, log_root, None, commit_type, a),
                earliest_outcome(listing, log_root, None, commit_type, b)]
            earliest_outcome(listing, log_root, None, commit_type, a) && earliest_outcome(
                listing,
                log_root,
                None,
                commit_type,
                b,
            ) implies (a is Ok <==> b is Ok) && (a is Ok ==> a == b) by {
            law_earliest_version_has_one_answer(listing, log_root, None, commit_type, a, b);
        }
    }
}

/// What to search has one answer, where it has one.
proof fn lemma_bounds_have_one_answer(
    ict_enablement: Result<InCommitTimestampEnablement, String>,
    commits: Seq<ParsedLogPath>,
    timestamp: Timestamp,
    bounds: Result<TimestampSearchBounds, LogHistoryError>,
    other: Result<TimestampSearchBounds, LogHistoryError>,
)
    requires
        super::versions_ascend(commits),
        search_bounds_outcome(ict_enablement, commits, timestamp, bounds),
        search_bounds_outcome(ict_enablement, commits, timestamp, other),
    ensures
        bounds is Ok <==> other is Ok,
        bounds is Ok ==> bounds == other,
{
    if let Ok(InCommitTimestampEnablement::Enabled { enablement: Some((version, _)) }) =
        ict_enablement {
        lemma_commits_before(commits, version);
    }
}

/// A query that searches the commits from `first` on answers what the search answers.
proof fn lemma_query_is_search(
    history: TableHistory,
    timestamp: Timestamp,
    bound: Bound,
    commit_type: HistoryCommitType,
    limit: Option<usize>,
    r: Result<CommitAt, LogHistoryError>,
)
    requires
        history.segment is Ok,
        history.timestamp is Ok,
        snapshot_outcome(history.version, history.timestamp->Ok_0, timestamp, bound) is None,
        limit_outcome(
            history.listing,
            history.log_root@,
            history.version,
            commit_type,
            Ok(limit),
        ),
    ensures
        version_outcome(history, timestamp, bound, commit_type, r) <==> segment_outcome(
            history.ict_enablement,
            history.segment->Ok_0@.from_version(first_searched(history.version, limit)),
            timestamp,
            bound,
            r,
        ),
{
    let listing = history.listing;
    let log_root = history.log_root@;
    let version = history.version;
    let own: Result<Option<usize>, LogHistoryError> = Ok(limit);
    assert(limit_outcome(listing, log_root, version, commit_type, own));
    assert forall|other: Result<Option<usize>, LogHistoryError>| #[trigger]
        limit_outcome(listing, log_root, version, commit_type, other) implies other == own by {
        lemma_limit_has_one_answer(history, commit_type, own, other);
    }
}

/// A search whose bounds are known answers what comes of them.
proof fn lemma_search_is_bounded(
    ict_enablement: Result<InCommitTimestampEnablement, String>,
    segment: SegmentView,
    timestamp: Timestamp,
    bound: Bound,
    bounds: TimestampSearchBounds,
    r: Result<CommitAt, LogHistoryError>,
)
    requires
        super::versions_ascend(segment.commits),
        search_bounds_outcome(ict_enablement, segment.commits, timestamp, Ok(bounds)),
    ensures
        segment_outcome(ict_enablement, segment, timestamp, bound, r) <==> bounded_outcome(
            Ok(bounds),
            segment,
            timestamp,
            bound,
            r,
        ),
{
    let own: Result<TimestampSearchBounds, LogHistoryError> = Ok(bounds);
    assert(search_bounds_outcome(ict_enablement, segment.commits, timestamp, own));
    assert forall|other: Result<TimestampSearchBounds, LogHistoryError>| #[trigger]
        search_bounds_outcome(ict_enablement, segment.commits, timestamp, other) implies other
        == own by {
        lemma_bounds_have_one_answer(ict_enablement, segment.commits, timestamp, own, other);
    }
}

/// A search that does not go by in-commit timestamps answers the same whatever reading them gives.
proof fn lemma_search_without_reads(
    ict_enablement: Result<InCommitTimestampEnablement, String>,
    segment: SegmentView,
    other: SegmentView,
    timestamp: Timestamp,
    bound: Bound,
    bounds: Result<TimestampSearchBounds, LogHistoryError>,
    r: Result<CommitAt, LogHistoryError>,
)
    requires
        super::versions_ascend(segment.commits),
        other.commits == segment.commits,
        search_bounds_outcome(ict_enablement, segment.commits, timestamp, bounds),
        !(bounds matches Ok(TimestampSearchBounds::ICTSearchStartingFrom(_))),
    ensures
        segment_outcome(ict_enablement, segment, timestamp, bound, r) <==> segment_outcome(
            ict_enablement,
            other,
            timestamp,
            bound,
            r,
        ),
{
    let commits = segment.commits;
    assert forall|found: Result<TimestampSearchBounds, LogHistoryError>| #[trigger]
        search_bounds_outcome(ict_enablement, commits, timestamp, found) implies bounded_outcome(
        found,
        segment,
        timestamp,
        bound,
        r,
    ) == bounded_outcome(found, other, timestamp, bound, r) by {
        lemma_bounds_have_one_answer(ict_enablement, commits, timestamp, bounds, found);
    }
}

/// A query that does not search the log by in-commit timestamps answers the same whatever reading
/// them gives.
proof fn lemma_query_without_reads(
    history: TableHistory,
    other: TableHistory,
    timestamp: Timestamp,
    bound: Bound,
    commit_type: HistoryCommitType,
    limit: Result<Option<usize>, LogHistoryError>,
    bounds: Result<TimestampSearchBounds, LogHistoryError>,
    r: Result<CommitAt, LogHistoryError>,
)
    requires
        history.wf(),
        other.wf(),
        same_but_reads(history, other),
        limit_outcome(
            history.listing,
            history.log_root@,
            history.version,
            commit_type,
            limit,
        ),
        limit is Ok && history.segment is Ok ==> {
            &&& first_searched(history.version, limit->Ok_0) <= history.version
            &&& search_bounds_outcome(
                history.ict_enablement,
                history.segment->Ok_0@.from_version(
                    first_searched(history.version, limit->Ok_0),
                ).commits,
                timestamp,
                bounds,
            )
            &&& !(bounds matches Ok(TimestampSearchBounds::ICTSearchStartingFrom(_)))
        },
    ensures
        version_outcome(history, timestamp, bound, commit_type, r) <==> version_outcome(
            other,
            timestamp,
            bound,
            commit_type,
            r,
        ),
{
    let listing = history.listing;
    let log_root = history.log_root@;
    let version = history.version;
    assert forall|found: Result<Option<usize>, LogHistoryError>| #[trigger]
        limit_outcome(listing, log_root, version, commit_type, found) implies (found is Ok
        <==> limit is Ok) && (found is Ok ==> found == limit) by {
        lemma_limit_has_one_answer(history, commit_type, limit, found);
    }
    if limit is Ok && history.segment is Ok {
        let first = first_searched(version, limit->Ok_0);
        let segment = history.segment->Ok_0@;
        lemma_from_version(segment, first);
        lemma_search_without_reads(
            history.ict_enablement,
            segment.from_version(first),
            other.segment->Ok_0@.from_version(first),
            timestamp,
            bound,
            bounds,
            r,
        );
    }
}

/// The position of the first commit whose in-commit timestamp a query can read; `None` where it
/// reads none. What the commits before it, or all of them, have for in-commit timestamps makes no
/// difference to the answer.
///
/// From that position on the query is an [`IctSearch`](super::ict::IctSearch), which says one by one
/// which of them are read.
pub fn ict_search_start(
    history: &TableHistory,
    timestamp: Timestamp,
    bound: Bound,
    commit_type: HistoryCommitType,
) -> (r: Option<usize>)
    requires
        history.wf(),
    ensures
        r is None ==> forall|other: TableHistory, answer: Result<CommitAt, LogHistoryError>|
            other.wf() && same_but_reads(*history, other) ==> (#[trigger] version_outcome(
                other,
                timestamp,
                bound,
                commit_type,
                answer,
            ) <==> version_outcome(*history, timestamp, bound, commit_type, answer)),
        r matches Some(from) ==> {
            &&& history.segment is Ok
            &&& from < history.segment->Ok_0@.commits.len()
            &&& forall|other: TableHistory, answer: Result<CommitAt, LogHistoryError>|
                other.wf() && same_but_reads(*history, other) ==> (#[trigger] version_outcome(
                    other,
                    timestamp,
                    bound,
                    commit_type,
                    answer,
                ) <==> ict_outcome(
                    other.segment->Ok_0@.commits.skip(from as int),
                    other.segment->Ok_0@.reads.skip(from as int),
                    timestamp,
                    bound,
                    answer,
                ))
        },
{
    let snapshot_timestamp: Timestamp = match &history.timestamp {
        Err(_) => {
            return None;
        },
        Ok(timestamp) => *timestamp,
    };
    if answer_from_snapshot(history.version, snapshot_timestamp, timestamp, bound).is_some() {
        return None;
    }
    let found: Result<Option<usize>, LogHistoryError> = listing_limit(
        &history.listing,
        history.log_root.as_str(),
        history.version,
        commit_type,
    );
    let ghost counted = found;
    let limit: Option<usize> = match found {
        Err(_) => {
            proof {
                let unknown: Result<TimestampSearchBounds, LogHistoryError> = arbitrary();
                assert forall|other: TableHistory, answer: Result<CommitAt, LogHistoryError>|
                    other.wf() && same_but_reads(*history, other) implies (
                #[trigger] version_outcome(other, timestamp, bound, commit_type, answer)
                    <==> version_outcome(*history, timestamp, bound, commit_type, answer)) by {
                    lemma_query_without_reads(
                        *history,
                        other,
                        timestamp,
                        bound,
                        commit_type,
                        counted,
                        unknown,
                        answer,
                    );
                }
            }
            return None;
        },
        Ok(limit) => limit,
    };
    let segment: &LogSegment = match &history.segment {
        Err(_) => {
            return None;
        },
        Ok(segment) => segment,
    };
    let first: Version = search_start(history.version, limit);
    let all: &[ParsedLogPath] = segment.ascending_commit_files.as_slice();
    let before: usize = version_index(all, first);
    proof {
        lemma_commits_before(segment@.commits, first);
        lemma_from_version(segment@, first);
    }
    let ghost searched = segment@.from_version(first);
    let commits: &[ParsedLogPath] = vstd::slice::slice_subrange(all, before, all.len());
    assert(commits@ =~= searched.commits);
    let bounds: Result<TimestampSearchBounds, LogHistoryError> = get_timestamp_search_bounds(
        &history.ict_enablement,
        commits,
        timestamp,
    );
    let ghost known = bounds;
    match bounds {
        Ok(TimestampSearchBounds::ICTSearchStartingFrom(lo)) => {
            proof {
                if let Ok(InCommitTimestampEnablement::Enabled { enablement: Some((version, _)) }) =
                    history.ict_enablement {
                    assert(searched.commits.last() == searched.commits[searched.commits.len() - 1]);
                }
                assert(lo < searched.commits.len());
                let from = before + lo;
                assert forall|other: TableHistory, answer: Result<CommitAt, LogHistoryError>|
                    other.wf() && same_but_reads(*history, other) implies (
                #[trigger] version_outcome(other, timestamp, bound, commit_type, answer)
                    <==> ict_outcome(
                    other.segment->Ok_0@.commits.skip(from),
                    other.segment->Ok_0@.reads.skip(from),
                    timestamp,
                    bound,
                    answer,
                )) by {
                    let theirs = other.segment->Ok_0@;
                    lemma_query_is_search(other, timestamp, bound, commit_type, limit, answer);
                    lemma_search_is_bounded(
                        other.ict_enablement,
                        theirs.from_version(first),
                        timestamp,
                        bound,
                        known->Ok_0,
                        answer,
                    );
                    assert(theirs.commits.skip(before as int).skip(lo as int)
                        =~= theirs.commits.skip(from));
                    assert(theirs.reads.skip(before as int).skip(lo as int) =~= theirs.reads.skip(
                        from,
                    ));
                }
            }
            Some(before + lo)
        },
        _ => {
            proof {
                assert forall|other: TableHistory, answer: Result<CommitAt, LogHistoryError>|
                    other.wf() && same_but_reads(*history, other) implies (
                #[trigger] version_outcome(other, timestamp, bound, commit_type, answer)
                    <==> version_outcome(*history, timestamp, bound, commit_type, answer)) by {
                    lemma_query_without_reads(
                        *history,
                        other,
                        timestamp,
                        bound,
                        commit_type,
                        counted,
                        known,
                        answer,
                    );
                }
            }
            None
        },
    }
}

} // verus!
