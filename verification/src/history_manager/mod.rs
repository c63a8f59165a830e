//! Timestamp queries over the Delta log: from timestamps to table versions.
//!
//! The functions of this module work on tables with and without in-commit timestamps (ICT). ICT
//! keeps a precise timestamp inside each commit; without it the modification times of the commit
//! files stand in, which clock skew can put out of order.
//!
//! All reading is done by the caller: [`TableHistory`] holds what was read for a query. A caller
//! that wants to read in-commit timestamps one at a time drives an [`IctSearch`] instead.

use vstd::prelude::*;

pub mod earliest;
pub mod earliest_laws;
pub mod error;
pub mod file_mod;
pub mod ict;
pub mod laws;
pub mod range_laws;
pub mod reads;
pub mod search;

pub use earliest::get_earliest_commit;

use crate::error::{DeltaResult, Error};
use crate::{FileMeta, Version};
use error::{LogHistoryError, NearestTimestamp};
use crate::text::push_decimal;
use earliest::{earliest_outcome, ListedPath};
use file_mod::{file_mod_outcome, is_file_mod_bound, linear_search_file_mod_timestamps};
use ict::{binary_search_ict_timestamps, ict_outcome, IctRead};
use search::Bound;

verus! {

/// Milliseconds since the Unix epoch (1970-01-01 00:00:00 UTC).
pub type Timestamp = i64;

/// A commit located by a timestamp query: its version paired with its timestamp.
#[derive(Debug, Clone, Copy, PartialEq, Eq, Structural)]
pub struct CommitAt {
    /// The commit version.
    pub version: Version,
    /// The commit's in-commit timestamp when ICT is enabled, otherwise the modification time of
    /// its file.
    pub timestamp: Timestamp,
}

impl CommitAt {
    /// Pairs a commit `version` with its `timestamp`.
    pub fn new(version: Version, timestamp: Timestamp) -> (r: CommitAt)
        ensures
            r == (CommitAt { version, timestamp }),
    {
        CommitAt { version, timestamp }
    }
}

/// What kind of file a name in the log directory stands for.
#[derive(Debug, Clone, Copy, PartialEq, Eq, Structural)]
pub enum LogPathFileType {
    /// A published commit.
    Commit,
    /// A commit staged for a catalog to ratify.
    StagedCommit,
    /// A checkpoint in one file.
    ClassicCheckpoint,
    /// A checkpoint with a unique name.
    UuidCheckpoint,
    /// One part of a checkpoint in several files.
    MultiPartCheckpoint {
        /// The number of this part.
        part_num: u32,
        /// How many parts the checkpoint has.
        num_parts: u32,
    },
    /// Several commits in one file.
    CompactedCommit {
        /// The last version in the file.
        hi: Version,
    },
    /// A version checksum.
    Crc,
    /// Anything else.
    Unknown,
}

/// A file of the log directory, with what its name says.
#[derive(Debug)]
pub struct ParsedLogPath {
    /// The file itself.
    pub location: FileMeta,
    /// The version in its name.
    pub version: Version,
    /// What kind of file it is.
    pub file_type: LogPathFileType,
}

/// Which commits a query may return.
#[derive(Debug, Clone, Copy, PartialEq, Eq, Structural)]
pub enum HistoryCommitType {
    /// Any commit present in the log. The table need not be reconstructible at its version.
    Published,
    /// A commit at whose version the table can be fully reconstructed, and from which it can be
    /// replayed forward to the latest version.
    Recreatable,
}

// ---------------------------------------------------------------------------------------------
// What a query reads
// ---------------------------------------------------------------------------------------------

/// Whether, and since when, a table has in-commit timestamps.
#[derive(Debug, Clone, Copy)]
pub enum InCommitTimestampEnablement {
    /// Its commits carry no in-commit timestamps.
    NotEnabled,
    /// They do: since the given version and timestamp, or since the table was created.
    Enabled {
        /// The version of the first commit with an in-commit timestamp, and that timestamp.
        enablement: Option<(Version, Timestamp)>,
    },
}

/// The commits of a table that a timestamp query searches.
#[derive(Debug)]
pub struct LogSegment {
    /// The commit files, lowest version first.
    pub ascending_commit_files: Vec<ParsedLogPath>,
    /// What reading the in-commit timestamp of each of them gives.
    pub in_commit_timestamps: Vec<IctRead>,
}

/// The versions of the commits increase.
pub open spec fn versions_ascend(commits: Seq<ParsedLogPath>) -> bool {
    forall|i: int, j: int|
        #![trigger commits[i], commits[j]]
        0 <= i < j < commits.len() ==> commits[i].version < commits[j].version
}

/// How many commits come before a version.
pub open spec fn commits_before(commits: Seq<ParsedLogPath>, version: Version) -> nat
    decreases commits.len(),
{
    if commits.len() == 0 || commits.last().version < version {
        commits.len()
    } else {
        commits_before(commits.drop_last(), version)
    }
}

/// The commits that a timestamp query searches, lowest version first, and what reading the
/// in-commit timestamp of each of them gives.
#[verifier::ext_equal]
pub struct SegmentView {
    /// The commits.
    pub commits: Seq<ParsedLogPath>,
    /// What reading their in-commit timestamps gives.
    pub reads: Seq<IctRead>,
}

impl SegmentView {
    /// There is a commit, versions increase, and there is one read for each commit.
    pub open spec fn wf(self) -> bool {
        &&& 0 < self.commits.len() <= usize::MAX
        &&& versions_ascend(self.commits)
        &&& self.reads.len() == self.commits.len()
    }

    /// The commits from a version on.
    pub open spec fn from_version(self, first: Version) -> SegmentView {
        let before = commits_before(self.commits, first) as int;
        SegmentView { commits: self.commits.skip(before), reads: self.reads.skip(before) }
    }
}

impl View for LogSegment {
    type V = SegmentView;

    open spec fn view(&self) -> SegmentView {
        SegmentView { commits: self.ascending_commit_files@, reads: self.in_commit_timestamps@ }
    }
}

/// What was read of a table for a timestamp query. Where the engine failed to read something, the
/// text of its failure stands in its place.
#[derive(Debug)]
pub struct TableHistory {
    /// The version of the snapshot that the query is made on.
    pub version: Version,
    /// The table's log directory.
    pub log_root: String,
    /// The timestamp of the snapshot.
    pub timestamp: Result<Timestamp, String>,
    /// Whether the table has in-commit timestamps.
    pub ict_enablement: Result<InCommitTimestampEnablement, String>,
    /// The listing of the log directory; read only for [`HistoryCommitType::Recreatable`].
    pub listing: Result<Vec<ListedPath>, String>,
    /// The commits up to the snapshot's version. A query for [`HistoryCommitType::Recreatable`]
    /// searches those from the earliest recreatable version on; earlier ones need not be there.
    pub segment: Result<LogSegment, String>,
}

impl TableHistory {
    /// The commits are in order, and the last one is that of the snapshot.
    pub open spec fn wf(self) -> bool {
        self.segment matches Ok(segment) ==> segment@.wf() && segment@.commits.last().version
            == self.version
    }
}

// ---------------------------------------------------------------------------------------------
// Where to search
// ---------------------------------------------------------------------------------------------

/// Which commits a search for a timestamp covers, and by which of their timestamps.
#[derive(Debug, Clone, Copy, PartialEq, Eq, Structural)]
pub enum TimestampSearchBounds {
    /// The timestamp is the one at which in-commit timestamps begin, at this version.
    ExactMatch(Version),
    /// The commits from this position on, by in-commit timestamp.
    ICTSearchStartingFrom(usize),
    /// All commits, by modification time.
    FileModificationSearch,
    /// The commits before in-commit timestamps begin, by modification time.
    FileModificationSearchUntil {
        /// The position at which in-commit timestamps begin.
        index: usize,
        /// The version at which they begin.
        ict_enablement_version: Version,
        /// The timestamp at which they begin.
        ict_enablement_timestamp: Timestamp,
    },
}

/// Whether `index` is the position of the first commit at or after `version`.
pub open spec fn is_version_index(
    commits: Seq<ParsedLogPath>,
    version: Version,
    index: int,
) -> bool {
    &&& 0 <= index <= commits.len()
    &&& forall|i: int| 0 <= i < index ==> (#[trigger] commits[i]).version < version
    &&& forall|i: int| index <= i < commits.len() ==> (#[trigger] commits[i]).version >= version
}

/// What is to be searched for a timestamp.
pub open spec fn search_bounds_outcome(
    ict_enablement: Result<InCommitTimestampEnablement, String>,
    commits: Seq<ParsedLogPath>,
    timestamp: Timestamp,
    r: Result<TimestampSearchBounds, LogHistoryError>,
) -> bool {
    match ict_enablement {
        Err(text) => r matches Err(error) && error.is_internal(
            "failed to read table configuration"@,
            Some(Error::Engine(text)),
        ),
        Ok(InCommitTimestampEnablement::NotEnabled) => r == Ok::<
            TimestampSearchBounds,
            LogHistoryError,
        >(TimestampSearchBounds::FileModificationSearch),
        Ok(InCommitTimestampEnablement::Enabled { enablement: None }) => r == Ok::<
            TimestampSearchBounds,
            LogHistoryError,
        >(TimestampSearchBounds::ICTSearchStartingFrom(0)),
        Ok(InCommitTimestampEnablement::Enabled { enablement: Some((version, ict)) }) => {
            if commits[0].version >= version {
                r == Ok::<TimestampSearchBounds, LogHistoryError>(
                    TimestampSearchBounds::ICTSearchStartingFrom(0),
                )
            } else if commits.last().version < version {
                r matches Err(error) && error.is_internal(
                    "ICT enablement version is beyond the table's latest version"@,
                    None,
                )
            } else if timestamp == ict {
                r == Ok::<TimestampSearchBounds, LogHistoryError>(
                    TimestampSearchBounds::ExactMatch(version),
                )
            } else if timestamp < ict {
                r matches Ok(TimestampSearchBounds::FileModificationSearchUntil {
                    index,
                    ict_enablement_version,
                    ict_enablement_timestamp,
                }) && is_version_index(commits, version, index as int) && ict_enablement_version
                    == version && ict_enablement_timestamp == ict
            } else {
                r matches Ok(TimestampSearchBounds::ICTSearchStartingFrom(index))
                    && is_version_index(commits, version, index as int)
            }
        },
    }
}

/// The position of the first commit at or after `version`.
pub(crate) fn version_index(commits: &[ParsedLogPath], version: Version) -> (index: usize)
    requires
        versions_ascend(commits@),
    ensures
        is_version_index(commits@, version, index as int),
{
    let mut lo: usize = 0;
    let mut hi: usize = commits.len();
    while lo < hi
        invariant
            lo <= hi <= commits.len(),
            versions_ascend(commits@),
            forall|i: int| 0 <= i < lo ==> (#[trigger] commits@[i]).version < version,
            forall|i: int| hi <= i < commits.len() ==> (#[trigger] commits@[i]).version >= version,
        decreases hi - lo,
    {
        let mid: usize = lo + (hi - lo) / 2;
        if commits[mid].version < version {
            lo = mid + 1;
        } else {
            hi = mid;
        }
    }
    lo
}

/// Says which commits to search for a timestamp, and by which of their timestamps.
///
/// A table that got in-commit timestamps at some version has file modification times before it. A
/// timestamp before the one of that version belongs to the former region, a later one to the
/// latter.
pub fn get_timestamp_search_bounds(
    ict_enablement: &Result<InCommitTimestampEnablement, String>,
    commits: &[ParsedLogPath],
    timestamp: Timestamp,
) -> (r: Result<TimestampSearchBounds, LogHistoryError>)
    requires
        commits@.len() > 0,
        versions_ascend(commits@),
    ensures
        search_bounds_outcome(*ict_enablement, commits@, timestamp, r),
{
    let (version, ict): (Version, Timestamp) = match ict_enablement {
        Err(text) => {
            return Err(
                LogHistoryError::internal(
                    "failed to read table configuration",
                    Error::Engine(text.clone()),
                ),
            );
        },
        Ok(InCommitTimestampEnablement::NotEnabled) => {
            return Ok(TimestampSearchBounds::FileModificationSearch);
        },
        Ok(InCommitTimestampEnablement::Enabled { enablement: None }) => {
            return Ok(TimestampSearchBounds::ICTSearchStartingFrom(0));
        },
        Ok(InCommitTimestampEnablement::Enabled { enablement: Some((version, ict)) }) => (
            *version,
            *ict,
        ),
    };
    if commits[0].version >= version {
        return Ok(TimestampSearchBounds::ICTSearchStartingFrom(0));
    }
    let index: usize = version_index(commits, version);
    if index >= commits.len() {
        return Err(
            LogHistoryError::internal_message(
                "ICT enablement version is beyond the table's latest version",
            ),
        );
    }
    assert(commits@[index as int].version <= commits@.last().version) by {
        assert(commits@.last() == commits@[commits@.len() - 1]);
    }
    if timestamp == ict {
        Ok(TimestampSearchBounds::ExactMatch(version))
    } else if timestamp < ict {
        Ok(
            TimestampSearchBounds::FileModificationSearchUntil {
                index,
                ict_enablement_version: version,
                ict_enablement_timestamp: ict,
            },
        )
    } else {
        Ok(TimestampSearchBounds::ICTSearchStartingFrom(index))
    }
}

// ---------------------------------------------------------------------------------------------
// From a timestamp to a version
// ---------------------------------------------------------------------------------------------

/// What the snapshot's own timestamp says about a query: the snapshot is the answer, or it shows
/// that there is none, or the log has to be searched (`None`).
pub open spec fn snapshot_outcome(
    version: Version,
    snapshot_timestamp: Timestamp,
    timestamp: Timestamp,
    bound: Bound,
) -> Option<Result<CommitAt, LogHistoryError>> {
    if timestamp < snapshot_timestamp {
        None
    } else if timestamp == snapshot_timestamp || bound is GreatestLower {
        Some(Ok(CommitAt { version, timestamp: snapshot_timestamp }))
    } else {
        Some(
            Err(
                LogHistoryError::TimestampOutOfRange {
                    timestamp,
                    bound,
                    nearest_timestamp: NearestTimestamp::Latest(snapshot_timestamp),
                },
            ),
        )
    }
}

/// Answers a query from the snapshot's own timestamp where that is possible; `None` where the log
/// has to be searched.
pub fn answer_from_snapshot(
    version: Version,
    snapshot_timestamp: Timestamp,
    timestamp: Timestamp,
    bound: Bound,
) -> (r: Option<Result<CommitAt, LogHistoryError>>)
    ensures
        r == snapshot_outcome(version, snapshot_timestamp, timestamp, bound),
{
    if timestamp < snapshot_timestamp {
        return None;
    }
    if timestamp == snapshot_timestamp {
        return Some(Ok(CommitAt::new(version, snapshot_timestamp)));
    }
    match bound {
        Bound::GreatestLower => Some(Ok(CommitAt::new(version, snapshot_timestamp))),
        Bound::LeastUpper => Some(
            Err(
                LogHistoryError::out_of_range(
                    timestamp,
                    bound,
                    NearestTimestamp::Latest(snapshot_timestamp),
                ),
            ),
        ),
    }
}

/// How many commits there are from version `earliest` up to `version`, if there are any and their
/// number can be counted.
pub open spec fn commits_between(earliest: Version, version: Version) -> Option<usize> {
    if earliest <= version && version - earliest + 1 <= u64::MAX && version - earliest + 1
        <= usize::MAX {
        Some((version - earliest + 1) as usize)
    } else {
        None
    }
}

/// What [`listing_limit`] says.
pub open spec fn limit_outcome(
    listing: Result<Vec<ListedPath>, String>,
    log_root: Seq<char>,
    version: Version,
    commit_type: HistoryCommitType,
    r: Result<Option<usize>, LogHistoryError>,
) -> bool {
    match commit_type {
        HistoryCommitType::Published => r == Ok::<Option<usize>, LogHistoryError>(None),
        HistoryCommitType::Recreatable => match listing {
            Err(text) => r matches Err(error) && error.is_internal(
                "failed to get earliest commit"@,
                Some(Error::Engine(text)),
            ),
            Ok(listing) => exists|earliest: DeltaResult<Version>| #[trigger]
                earliest_outcome(listing@, log_root, None, commit_type, earliest)
                    && match earliest {
                    Err(Error::LogHistory(inner)) => r == Err::<Option<usize>, LogHistoryError>(
                        *inner,
                    ),
                    Err(error) => r matches Err(e) && e.is_internal(
                        "failed to get earliest commit"@,
                        Some(error),
                    ),
                    Ok(earliest) => match commits_between(earliest, version) {
                        Some(limit) => r == Ok::<Option<usize>, LogHistoryError>(Some(limit)),
                        None => r matches Err(error) && exists|message: String|
                            message@ == "earliest = "@ + crate::text::decimal(earliest as int)
                                + ", snapshot version = "@ + crate::text::decimal(version as int)
                                && #[trigger] error.is_internal(
                                "earliest recreatable version exceeds snapshot version"@,
                                Some(Error::Generic(message)),
                            ),
                    },
                },
        },
    }
}

/// How many commits, counted back from the snapshot's version, a query may return; `None` where any
/// commit will do.
pub fn listing_limit(
    listing: &Result<Vec<ListedPath>, String>,
    log_root: &str,
    version: Version,
    commit_type: HistoryCommitType,
) -> (r: Result<Option<usize>, LogHistoryError>)
    ensures
        limit_outcome(*listing, log_root@, version, commit_type, r),
{
    if matches!(commit_type, HistoryCommitType::Published) {
        return Ok(None);
    }
    let listing: &Vec<ListedPath> = match listing {
        Err(text) => {
            return Err(
                LogHistoryError::internal(
                    "failed to get earliest commit",
                    Error::Engine(text.clone()),
                ),
            );
        },
        Ok(listing) => listing,
    };
    let found: DeltaResult<Version> = get_earliest_commit(
        listing.as_slice(),
        log_root,
        None,
        commit_type,
    );
    let ghost result = found;
    assert(earliest_outcome(listing@, log_root@, None, commit_type, result));
    let earliest: Version = match found {
        Ok(earliest) => earliest,
        Err(Error::LogHistory(inner)) => {
            return Err(*inner);
        },
        Err(error) => {
            return Err(LogHistoryError::internal("failed to get earliest commit", error));
        },
    };
    if earliest <= version && version - earliest < u64::MAX {
        let count: u64 = version - earliest + 1;
        if count <= usize::MAX as u64 {
            return Ok(Some(count as usize));
        }
    }
    let mut message: String = "earliest = ".to_owned();
    push_decimal(&mut message, earliest as i128);
    message.append(", snapshot version = ");
    push_decimal(&mut message, version as i128);
    Err(
        LogHistoryError::internal(
            "earliest recreatable version exceeds snapshot version",
            Error::Generic(message),
        ),
    )
}

/// The first version that a query searches, where it may return `limit` commits, counted back from
/// the snapshot's version.
pub open spec fn first_searched(version: Version, limit: Option<usize>) -> Version {
    match limit {
        None => 0,
        Some(limit) => if limit > version {
            0
        } else {
            (version - limit + 1) as Version
        },
    }
}

/// The first version that a query searches.
pub(crate) fn search_start(version: Version, limit: Option<usize>) -> (r: Version)
    requires
        limit != Some(0usize),
    ensures
        r == first_searched(version, limit),
        r <= version,
{
    match limit {
        None => 0,
        Some(limit) => {
            let limit: u64 = limit as u64;
            if limit > version {
                0
            } else {
                version - limit + 1
            }
        },
    }
}

/// What a search of the commits of a table answers, once it is known which of them to search.
pub open spec fn bounded_outcome(
    bounds: Result<TimestampSearchBounds, LogHistoryError>,
    segment: SegmentView,
    timestamp: Timestamp,
    bound: Bound,
    r: Result<CommitAt, LogHistoryError>,
) -> bool {
    let commits = segment.commits;
    match bounds {
        Err(error) => r == Err::<CommitAt, LogHistoryError>(error),
        Ok(TimestampSearchBounds::ExactMatch(version)) => r == Ok::<CommitAt, LogHistoryError>(
            CommitAt { version, timestamp },
        ),
        Ok(TimestampSearchBounds::ICTSearchStartingFrom(lo)) => ict_outcome(
            commits.skip(lo as int),
            segment.reads.skip(lo as int),
            timestamp,
            bound,
            r,
        ),
        Ok(TimestampSearchBounds::FileModificationSearch) => file_mod_outcome(
            commits,
            timestamp,
            bound,
            r,
        ),
        Ok(
            TimestampSearchBounds::FileModificationSearchUntil {
                index,
                ict_enablement_version,
                ict_enablement_timestamp,
            },
        ) => {
            if bound is LeastUpper && forall|i: int| !#[trigger]
                is_file_mod_bound(commits.take(index as int), timestamp, bound, i) {
                r == Ok::<CommitAt, LogHistoryError>(
                    CommitAt {
                        version: ict_enablement_version,
                        timestamp: ict_enablement_timestamp,
                    },
                )
            } else {
                file_mod_outcome(commits.take(index as int), timestamp, bound, r)
            }
        },
    }
}

/// What a search of the commits of a table answers.
pub open spec fn segment_outcome(
    ict_enablement: Result<InCommitTimestampEnablement, String>,
    segment: SegmentView,
    timestamp: Timestamp,
    bound: Bound,
    r: Result<CommitAt, LogHistoryError>,
) -> bool {
    exists|bounds: Result<TimestampSearchBounds, LogHistoryError>| #[trigger]
        search_bounds_outcome(ict_enablement, segment.commits, timestamp, bounds)
            && bounded_outcome(bounds, segment, timestamp, bound, r)
}

/// The number of commits before a version is the position of the first one at or after it.
pub proof fn lemma_commits_before(commits: Seq<ParsedLogPath>, version: Version)
    requires
        versions_ascend(commits),
    ensures
        is_version_index(commits, version, commits_before(commits, version) as int),
        forall|i: int| #[trigger]
            is_version_index(commits, version, i) ==> i == commits_before(commits, version),
    decreases commits.len(),
{
    let before = commits_before(commits, version) as int;
    if commits.len() > 0 {
        let last = commits.len() - 1;
        assert(commits.last() == commits[last]);
        if commits.last().version >= version {
            let rest = commits.drop_last();
            lemma_commits_before(rest, version);
            assert forall|i: int| 0 <= i < before implies (#[trigger] commits[i]).version
                < version by {
                assert(rest[i] == commits[i]);
            }
            assert forall|i: int| before <= i < commits.len() implies (
            #[trigger] commits[i]).version >= version by {
                if i < last {
                    assert(rest[i] == commits[i]);
                }
            }
        }
    }
    assert forall|i: int| #[trigger] is_version_index(commits, version, i) implies i == before by {
        if i < before {
            assert(commits[i].version < version);
        }
        if before < i {
            assert(commits[before].version >= version);
        }
    }
}

/// The commits from a version on are in order, and none of them is before the version.
pub proof fn lemma_from_version(segment: SegmentView, first: Version)
    requires
        segment.wf(),
        first <= segment.commits.last().version,
    ensures
        segment.from_version(first).wf(),
        segment.from_version(first).commits.last() == segment.commits.last(),
        forall|i: int|
            0 <= i < segment.from_version(first).commits.len() ==> (
            #[trigger] segment.from_version(first).commits[i]).version >= first,
        first == 0 ==> segment.from_version(first) == segment,
{
    let commits = segment.commits;
    let before = commits_before(commits, first) as int;
    let rest = segment.from_version(first);
    lemma_commits_before(commits, first);
    assert(commits.last() == commits[commits.len() - 1]);
    assert(before < commits.len());
    assert forall|i: int, j: int|
        #![trigger rest.commits[i], rest.commits[j]]
        0 <= i < j < rest.commits.len() implies rest.commits[i].version
        < rest.commits[j].version by {
        assert(commits[i + before].version < commits[j + before].version);
    }
    assert forall|i: int| 0 <= i < rest.commits.len() implies (
    #[trigger] rest.commits[i]).version >= first by {
        assert(rest.commits[i] == commits[i + before]);
    }
    if first == 0 {
        assert(is_version_index(commits, 0, 0));
        assert(rest =~= segment);
    }
}

/// Finds the commit on the asked side of `timestamp` among the commits of a table from version
/// `first` on.
pub fn search_segment(
    ict_enablement: &Result<InCommitTimestampEnablement, String>,
    segment: &LogSegment,
    first: Version,
    timestamp: Timestamp,
    bound: Bound,
) -> (r: Result<CommitAt, LogHistoryError>)
    requires
        segment@.wf(),
        first <= segment@.commits.last().version,
    ensures
        segment_outcome(*ict_enablement, segment@.from_version(first), timestamp, bound, r),
{
    let all: &[ParsedLogPath] = segment.ascending_commit_files.as_slice();
    let all_reads: &[IctRead] = segment.in_commit_timestamps.as_slice();
    let before: usize = version_index(all, first);
    proof {
        lemma_commits_before(segment@.commits, first);
        lemma_from_version(segment@, first);
    }
    let ghost searched = segment@.from_version(first);
    let commits: &[ParsedLogPath] = vstd::slice::slice_subrange(all, before, all.len());
    let reads: &[IctRead] = vstd::slice::slice_subrange(all_reads, before, all_reads.len());
    assert(commits@ =~= searched.commits);
    assert(reads@ =~= searched.reads);
    let bounds: Result<TimestampSearchBounds, LogHistoryError> = get_timestamp_search_bounds(
        ict_enablement,
        commits,
        timestamp,
    );
    let ghost result = bounds;
    assert(search_bounds_outcome(*ict_enablement, commits@, timestamp, result));
    match bounds {
        Err(error) => Err(error),
        Ok(TimestampSearchBounds::ExactMatch(version)) => Ok(CommitAt::new(version, timestamp)),
        Ok(TimestampSearchBounds::ICTSearchStartingFrom(lo)) => {
            let rest: &[ParsedLogPath] = vstd::slice::slice_subrange(commits, lo, commits.len());
            let rest_reads: &[IctRead] = vstd::slice::slice_subrange(reads, lo, reads.len());
            assert(rest@ =~= commits@.skip(lo as int));
            assert(rest_reads@ =~= reads@.skip(lo as int));
            binary_search_ict_timestamps(rest, timestamp, bound, rest_reads)
        },
        Ok(TimestampSearchBounds::FileModificationSearch) => linear_search_file_mod_timestamps(
            commits,
            timestamp,
            bound,
        ),
        Ok(
            TimestampSearchBounds::FileModificationSearchUntil {
                index,
                ict_enablement_version,
                ict_enablement_timestamp,
            },
        ) => {
            let earlier: &[ParsedLogPath] = vstd::slice::slice_subrange(commits, 0, index);
            assert(earlier@ =~= commits@.take(index as int));
            match linear_search_file_mod_timestamps(earlier, timestamp, bound) {
                Ok(commit) => Ok(commit),
                Err(error) => match bound {
                    Bound::LeastUpper => Ok(
                        CommitAt::new(ict_enablement_version, ict_enablement_timestamp),
                    ),
                    Bound::GreatestLower => Err(error),
                },
            }
        },
    }
}

/// What a timestamp query answers.
pub open spec fn version_outcome(
    history: TableHistory,
    timestamp: Timestamp,
    bound: Bound,
    commit_type: HistoryCommitType,
    r: Result<CommitAt, LogHistoryError>,
) -> bool {
    match history.timestamp {
        Err(text) => r matches Err(error) && error.is_internal(
            "failed to get snapshot timestamp"@,
            Some(Error::Engine(text)),
        ),
        Ok(snapshot_timestamp) => match snapshot_outcome(
            history.version,
            snapshot_timestamp,
            timestamp,
            bound,
        ) {
            Some(answer) => r == answer,
            None => exists|limit: Result<Option<usize>, LogHistoryError>| #[trigger]
                limit_outcome(
                    history.listing,
                    history.log_root@,
                    history.version,
                    commit_type,
                    limit,
                ) && match (limit, history.segment) {
                    (Err(error), _) => r == Err::<CommitAt, LogHistoryError>(error),
                    (Ok(_), Err(text)) => r matches Err(error) && error.is_internal(
                        "failed to build log segment for timestamp conversion"@,
                        Some(Error::Engine(text)),
                    ),
                    (Ok(limit), Ok(segment)) => segment_outcome(
                        history.ict_enablement,
                        segment@.from_version(first_searched(history.version, limit)),
                        timestamp,
                        bound,
                        r,
                    ),
                },
        },
    }
}

/// Finds the commit on the asked side of `timestamp`.
///
/// With [`Bound::GreatestLower`] that is the commit with the greatest timestamp at or before it,
/// with [`Bound::LeastUpper`] the one with the least timestamp at or after it. A search for
/// [`HistoryCommitType::Recreatable`] leaves out the commits before the earliest recreatable
/// version.
pub fn timestamp_to_version(
    history: &TableHistory,
    timestamp: Timestamp,
    bound: Bound,
    resolved_commit_type: HistoryCommitType,
) -> (r: Result<CommitAt, LogHistoryError>)
    requires
        history.wf(),
    ensures
        version_outcome(*history, timestamp, bound, resolved_commit_type, r),
{
    let snapshot_timestamp: Timestamp = match &history.timestamp {
        Err(text) => {
            return Err(
                LogHistoryError::internal(
                    "failed to get snapshot timestamp",
                    Error::Engine(text.clone()),
                ),
            );
        },
        Ok(timestamp) => *timestamp,
    };
    if let Some(answer) = answer_from_snapshot(
        history.version,
        snapshot_timestamp,
        timestamp,
        bound,
    ) {
        return answer;
    }
    let limit: Result<Option<usize>, LogHistoryError> = listing_limit(
        &history.listing,
        history.log_root.as_str(),
        history.version,
        resolved_commit_type,
    );
    let ghost result = limit;
    assert(limit_outcome(
        history.listing,
        history.log_root@,
        history.version,
        resolved_commit_type,
        result,
    ));
    let limit: Option<usize> = match limit {
        Err(error) => {
            return Err(error);
        },
        Ok(limit) => limit,
    };
    let first: Version = search_start(history.version, limit);
    match &history.segment {
        Err(text) => Err(
            LogHistoryError::internal(
                "failed to build log segment for timestamp conversion",
                Error::Engine(text.clone()),
            ),
        ),
        Ok(segment) => search_segment(&history.ict_enablement, segment, first, timestamp, bound),
    }
}

/// What a timestamp query answers, as the error of a public function.
pub open spec fn delta_outcome(
    history: TableHistory,
    timestamp: Timestamp,
    bound: Bound,
    commit_type: HistoryCommitType,
    r: DeltaResult<CommitAt>,
) -> bool {
    match r {
        Ok(commit) => version_outcome(history, timestamp, bound, commit_type, Ok(commit)),
        Err(error) => error matches Error::LogHistory(inner) && version_outcome(
            history,
            timestamp,
            bound,
            commit_type,
            Err(*inner),
        ),
    }
}

/// The latest commit with a timestamp at or before `timestamp`.
pub fn latest_version_as_of(
    history: &TableHistory,
    timestamp: Timestamp,
    resolved_commit_type: HistoryCommitType,
) -> (r: DeltaResult<CommitAt>)
    requires
        history.wf(),
    ensures
        delta_outcome(*history, timestamp, Bound::GreatestLower, resolved_commit_type, r),
{
    match timestamp_to_version(history, timestamp, Bound::GreatestLower, resolved_commit_type) {
        Ok(commit) => Ok(commit),
        Err(error) => Err(Error::LogHistory(Box::new(error))),
    }
}

/// The first commit with a timestamp at or after `timestamp`.
pub fn first_version_after(
    history: &TableHistory,
    timestamp: Timestamp,
    resolved_commit_type: HistoryCommitType,
) -> (r: DeltaResult<CommitAt>)
    requires
        history.wf(),
    ensures
        delta_outcome(*history, timestamp, Bound::LeastUpper, resolved_commit_type, r),
{
    match timestamp_to_version(history, timestamp, Bound::LeastUpper, resolved_commit_type) {
        Ok(commit) => Ok(commit),
        Err(error) => Err(Error::LogHistory(Box::new(error))),
    }
}

/// What a query for a range of timestamps answers: the first version at or after its start, and,
/// where it has an end, the last one at or before that.
pub open spec fn range_outcome(
    history: TableHistory,
    start_timestamp: Timestamp,
    end_timestamp: Option<Timestamp>,
    r: DeltaResult<(Version, Option<Version>)>,
) -> bool {
    if end_timestamp is Some && start_timestamp > end_timestamp->Some_0 {
        r == Err::<(Version, Option<Version>), Error>(
            Error::LogHistory(
                Box::new(
                    LogHistoryError::InvalidTimestampRange {
                        start_timestamp,
                        end_timestamp: end_timestamp->Some_0,
                    },
                ),
            ),
        )
    } else {
        exists|start: DeltaResult<CommitAt>| #[trigger]
            delta_outcome(
                history,
                start_timestamp,
                Bound::LeastUpper,
                HistoryCommitType::Published,
                start,
            ) && match (start, end_timestamp) {
                (Err(error), _) => r == Err::<(Version, Option<Version>), Error>(error),
                (Ok(start), None) => r == Ok::<(Version, Option<Version>), Error>(
                    (start.version, None),
                ),
                (Ok(start), Some(end_timestamp)) => range_end_outcome(
                    history,
                    start_timestamp,
                    start.version,
                    end_timestamp,
                    r,
                ),
            }
    }
}

/// What a query for a range answers once its first version is known.
pub open spec fn range_end_outcome(
    history: TableHistory,
    start_timestamp: Timestamp,
    start_version: Version,
    end_timestamp: Timestamp,
    r: DeltaResult<(Version, Option<Version>)>,
) -> bool {
    exists|end: DeltaResult<CommitAt>| #[trigger]
        delta_outcome(
            history,
            end_timestamp,
            Bound::GreatestLower,
            HistoryCommitType::Published,
            end,
        ) && match end {
            Err(error) => r == Err::<(Version, Option<Version>), Error>(error),
            Ok(end) => if start_version <= end.version {
                r == Ok::<(Version, Option<Version>), Error>((start_version, Some(end.version)))
            } else {
                r == Err::<(Version, Option<Version>), Error>(
                    Error::LogHistory(
                        Box::new(
                            LogHistoryError::EmptyTimestampRange {
                                start_timestamp,
                                end_timestamp,
                                between_version: end.version,
                            },
                        ),
                    ),
                )
            },
        }
}

/// The versions that a range of timestamps covers, both ends included: the first version at or
/// after `start_timestamp`, and, where there is an `end_timestamp`, the last one at or before it.
pub fn timestamp_range_to_versions(
    history: &TableHistory,
    start_timestamp: Timestamp,
    end_timestamp: Option<Timestamp>,
) -> (r: DeltaResult<(Version, Option<Version>)>)
    requires
        history.wf(),
    ensures
        range_outcome(*history, start_timestamp, end_timestamp, r),
        r matches Ok((start, Some(end))) ==> start <= end,
        r matches Ok((_, end)) ==> (end is Some <==> end_timestamp is Some),
{
    if let Some(end_timestamp) = end_timestamp {
        if start_timestamp > end_timestamp {
            return Err(
                Error::LogHistory(
                    Box::new(
                        LogHistoryError::InvalidTimestampRange { start_timestamp, end_timestamp },
                    ),
                ),
            );
        }
    }
    let start: DeltaResult<CommitAt> = first_version_after(
        history,
        start_timestamp,
        HistoryCommitType::Published,
    );
    let ghost start_result = start;
    assert(delta_outcome(
        *history,
        start_timestamp,
        Bound::LeastUpper,
        HistoryCommitType::Published,
        start_result,
    ));
    let start_version: Version = match start {
        Ok(commit) => commit.version,
        Err(error) => {
            return Err(error);
        },
    };
    let end_timestamp: Timestamp = match end_timestamp {
        None => {
            return Ok((start_version, None));
        },
        Some(end_timestamp) => end_timestamp,
    };
    let end: DeltaResult<CommitAt> = latest_version_as_of(
        history,
        end_timestamp,
        HistoryCommitType::Published,
    );
    let ghost end_result = end;
    assert(delta_outcome(
        *history,
        end_timestamp,
        Bound::GreatestLower,
        HistoryCommitType::Published,
        end_result,
    ));
    match end {
        Err(error) => Err(error),
        Ok(commit) => {
            if start_version <= commit.version {
                Ok((start_version, Some(commit.version)))
            } else {
                Err(
                    Error::LogHistory(
                        Box::new(
                            LogHistoryError::EmptyTimestampRange {
                                start_timestamp,
                                end_timestamp,
                                between_version: commit.version,
                            },
                        ),
                    ),
                )
            }
        },
    }
}

} // verus!
