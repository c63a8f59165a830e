use delta_kernel::error::Error;
use delta_kernel::history_manager::earliest::{
    get_earliest_commit, get_earliest_published_commit_version, get_earliest_recreatable_commit,
    should_process_log_file, ListedPath,
};
use delta_kernel::history_manager::error::{LogHistoryError, NearestTimestamp};
use delta_kernel::history_manager::file_mod::linear_search_file_mod_timestamps;
use delta_kernel::history_manager::ict::{binary_search_ict_timestamps, IctSearch, IctStep};
use delta_kernel::history_manager::reads::ict_search_start;
use delta_kernel::history_manager::search::Bound;
use delta_kernel::history_manager::{
    answer_from_snapshot, first_version_after, get_timestamp_search_bounds, latest_version_as_of,
    listing_limit, search_segment, timestamp_range_to_versions, timestamp_to_version, CommitAt,
    HistoryCommitType, InCommitTimestampEnablement, LogPathFileType, LogSegment, ParsedLogPath,
    TableHistory, Timestamp, TimestampSearchBounds,
};
use delta_kernel::{FileMeta, Version};

const LOG_ROOT: &str = "memory:///_delta_log/";

fn log_path(version: Version, last_modified: i64, file_type: LogPathFileType) -> ParsedLogPath {
    ParsedLogPath {
        location: FileMeta {
            location: format!("{LOG_ROOT}{version:020}"),
            last_modified,
            size: 1,
        },
        version,
        file_type,
    }
}

fn commit(version: Version, last_modified: i64) -> ParsedLogPath {
    log_path(version, last_modified, LogPathFileType::Commit)
}

/// A table: the modification time and the in-commit timestamp of each commit, the version at which
/// in-commit timestamps begin, the version of a checkpoint, and how many commits were cleaned up.
struct Table {
    timestamps: Vec<(Timestamp, Option<Timestamp>)>,
    enablement: Option<Version>,
    checkpoint: Option<Version>,
    cleaned_up: usize,
}

impl Table {
    fn new(timestamps: &[(Timestamp, Option<Timestamp>)], enablement: Option<Version>) -> Table {
        Table {
            timestamps: timestamps.to_vec(),
            enablement,
            checkpoint: None,
            cleaned_up: 0,
        }
    }

    fn with_log_cleanup(timestamps: &[Timestamp], checkpoint: Version, until: usize) -> Table {
        Table {
            timestamps: timestamps.iter().map(|ts| (*ts, None)).collect(),
            enablement: None,
            checkpoint: Some(checkpoint),
            cleaned_up: until + 1,
        }
    }

    fn ict_enablement(&self, version: Version) -> InCommitTimestampEnablement {
        match self.enablement {
            Some(enablement) if enablement <= version => InCommitTimestampEnablement::Enabled {
                enablement: if enablement == 0 {
                    None
                } else {
                    let ict = self.timestamps[enablement as usize].1.unwrap();
                    Some((enablement, ict))
                },
            },
            _ => InCommitTimestampEnablement::NotEnabled,
        }
    }

    fn listing(&self) -> Vec<ListedPath> {
        let mut listing = vec![];
        for (version, (last_modified, _)) in self.timestamps.iter().enumerate() {
            if self.checkpoint == Some(version as u64) {
                let kind = LogPathFileType::ClassicCheckpoint;
                listing.push(Ok(log_path(version as u64, 0, kind)));
            }
            if version >= self.cleaned_up {
                listing.push(Ok(commit(version as u64, *last_modified)));
            }
        }
        listing
    }

    fn segment(&self, version: Version) -> LogSegment {
        let mut commits = vec![];
        let mut reads = vec![];
        let all = self.timestamps.iter().enumerate();
        for (i, (last_modified, ict)) in all.skip(self.cleaned_up) {
            if i as u64 <= version {
                commits.push(commit(i as u64, *last_modified));
                reads.push(ict.ok_or("no in-commit timestamp".to_string()));
            }
        }
        LogSegment {
            ascending_commit_files: commits,
            in_commit_timestamps: reads,
        }
    }

    fn history(&self) -> TableHistory {
        let version = self.timestamps.len() as u64 - 1;
        let (last_modified, ict) = self.timestamps[version as usize];
        let enabled = self.enablement.is_some();
        TableHistory {
            version,
            log_root: LOG_ROOT.to_string(),
            timestamp: if enabled {
                ict.ok_or("no in-commit timestamp".to_string())
            } else {
                Ok(last_modified)
            },
            ict_enablement: Ok(self.ict_enablement(version)),
            listing: Ok(self.listing()),
            segment: Ok(self.segment(version)),
        }
    }
}

/// Modification times until in-commit timestamps begin at version 3.
fn standard_table() -> Table {
    Table::new(
        &[
            (50, None),
            (150, None),
            (250, None),
            (350, Some(300)),
            (450, Some(400)),
        ],
        Some(3),
    )
}

fn ict_from_creation() -> Table {
    Table::new(&[(0, Some(100)), (0, Some(200)), (0, Some(300))], Some(0))
}

fn file_mod_only() -> Table {
    Table::new(&[(100, None), (200, None), (300, None)], None)
}

/// The times of versions 2 and 3 lie before that of version 1.
fn non_monotonic() -> Table {
    Table::new(
        &[(100, None), (200, None), (150, None), (180, None), (300, None)],
        None,
    )
}

fn at(version: Version, timestamp: Timestamp) -> Option<CommitAt> {
    Some(CommitAt::new(version, timestamp))
}

fn assert_found(res: Result<CommitAt, LogHistoryError>, expected: Option<CommitAt>) {
    match expected {
        Some(commit) => assert_eq!(res.unwrap(), commit),
        None => assert!(
            matches!(res, Err(LogHistoryError::TimestampOutOfRange { .. })),
            "{res:?}"
        ),
    }
}

#[test]
fn test_search_bounds_no_ict() {
    let table = standard_table();
    let segment = table.segment(2);
    for timestamp in [0, 100, 1000] {
        let res = get_timestamp_search_bounds(
            &Ok(table.ict_enablement(2)),
            &segment.ascending_commit_files,
            timestamp,
        )
        .unwrap();
        assert!(
            matches!(res, TimestampSearchBounds::FileModificationSearch),
            "{res:?}"
        );
    }
}

#[test]
fn test_search_bounds_with_ict() {
    let table = standard_table();
    let segment = table.segment(4);
    let until = || TimestampSearchBounds::FileModificationSearchUntil {
        index: 3,
        ict_enablement_version: 3,
        ict_enablement_timestamp: 300,
    };
    for (timestamp, expected) in [
        (50, until()),
        (60, until()),
        (299, until()),
        (300, TimestampSearchBounds::ExactMatch(3)),
        (301, TimestampSearchBounds::ICTSearchStartingFrom(3)),
        (1000, TimestampSearchBounds::ICTSearchStartingFrom(3)),
    ] {
        let res = get_timestamp_search_bounds(
            &Ok(table.ict_enablement(4)),
            &segment.ascending_commit_files,
            timestamp,
        )
        .unwrap();
        assert_eq!(res, expected);
    }
}

#[test]
fn test_search_bounds_ict_from_creation() {
    let table = ict_from_creation();
    let segment = table.segment(2);
    for timestamp in [50, 100, 150, 1000] {
        let res = get_timestamp_search_bounds(
            &Ok(table.ict_enablement(2)),
            &segment.ascending_commit_files,
            timestamp,
        )
        .unwrap();
        assert!(
            matches!(res, TimestampSearchBounds::ICTSearchStartingFrom(0)),
            "{res:?}"
        );
    }
}

#[test]
fn test_search_bounds_fast_path_pre_ict_commits_cleaned_up() {
    let mut table = standard_table();
    table.cleaned_up = 3;
    let segment = table.segment(4);
    assert_eq!(segment.ascending_commit_files[0].version, 3);
    for timestamp in [50, 300, 350, 1000] {
        let res = get_timestamp_search_bounds(
            &Ok(table.ict_enablement(4)),
            &segment.ascending_commit_files,
            timestamp,
        )
        .unwrap();
        assert!(
            matches!(res, TimestampSearchBounds::ICTSearchStartingFrom(0)),
            "{res:?}"
        );
    }
}

#[test]
fn search_bounds_report_what_could_not_be_read() {
    let table = standard_table();
    let segment = table.segment(4);
    let res = get_timestamp_search_bounds(
        &Err("unreadable".to_string()),
        &segment.ascending_commit_files,
        50,
    );
    let error = res.unwrap_err();
    assert!(matches!(error, LogHistoryError::Internal { source: Some(_), .. }));
    assert!(error.to_string().ends_with(": unreadable"));
}

#[test]
fn test_timestamp_to_version_standard_table() {
    let history = standard_table().history();
    for (timestamp, bound, expected) in [
        (0, Bound::LeastUpper, at(0, 50)),
        (0, Bound::GreatestLower, None),
        (-1, Bound::LeastUpper, at(0, 50)),
        (1000, Bound::LeastUpper, None),
        (1000, Bound::GreatestLower, at(4, 400)),
        (50, Bound::LeastUpper, at(0, 50)),
        (50, Bound::GreatestLower, at(0, 50)),
        (150, Bound::LeastUpper, at(1, 150)),
        (150, Bound::GreatestLower, at(1, 150)),
        (300, Bound::LeastUpper, at(3, 300)),
        (300, Bound::GreatestLower, at(3, 300)),
        (100, Bound::LeastUpper, at(1, 150)),
        (100, Bound::GreatestLower, at(0, 50)),
        (251, Bound::LeastUpper, at(3, 300)),
        (251, Bound::GreatestLower, at(2, 250)),
        (299, Bound::LeastUpper, at(3, 300)),
        (299, Bound::GreatestLower, at(2, 250)),
        (301, Bound::GreatestLower, at(3, 300)),
        (301, Bound::LeastUpper, at(4, 400)),
        (350, Bound::GreatestLower, at(3, 300)),
        (350, Bound::LeastUpper, at(4, 400)),
    ] {
        let res = timestamp_to_version(&history, timestamp, bound, HistoryCommitType::Published);
        assert_found(res, expected);
    }
}

#[test]
fn test_ict_from_creation() {
    let history = ict_from_creation().history();
    for (timestamp, bound, expected) in [
        (100, Bound::GreatestLower, at(0, 100)),
        (100, Bound::LeastUpper, at(0, 100)),
        (150, Bound::GreatestLower, at(0, 100)),
        (150, Bound::LeastUpper, at(1, 200)),
        (250, Bound::GreatestLower, at(1, 200)),
        (250, Bound::LeastUpper, at(2, 300)),
        (50, Bound::GreatestLower, None),
        (50, Bound::LeastUpper, at(0, 100)),
    ] {
        let res = timestamp_to_version(&history, timestamp, bound, HistoryCommitType::Published);
        assert_found(res, expected);
    }
}

#[test]
fn test_single_commit() {
    let history = Table::new(&[(100, None)], None).history();
    for (timestamp, bound, expected) in [
        (100, Bound::GreatestLower, at(0, 100)),
        (100, Bound::LeastUpper, at(0, 100)),
        (50, Bound::GreatestLower, None),
        (50, Bound::LeastUpper, at(0, 100)),
        (150, Bound::GreatestLower, at(0, 100)),
        (150, Bound::LeastUpper, None),
    ] {
        let res = timestamp_to_version(&history, timestamp, bound, HistoryCommitType::Published);
        assert_found(res, expected);
    }
}

#[test]
fn test_non_monotonic_timestamps() {
    let history = non_monotonic().history();
    for (timestamp, bound, expected) in [
        (100, Bound::GreatestLower, at(0, 100)),
        (200, Bound::GreatestLower, at(1, 200)),
        (201, Bound::GreatestLower, at(2, 201)),
        (202, Bound::GreatestLower, at(3, 202)),
        (250, Bound::GreatestLower, at(3, 202)),
        (300, Bound::GreatestLower, at(4, 300)),
        (150, Bound::LeastUpper, at(1, 200)),
        (201, Bound::LeastUpper, at(2, 201)),
        (203, Bound::LeastUpper, at(4, 300)),
    ] {
        let res = timestamp_to_version(&history, timestamp, bound, HistoryCommitType::Published);
        assert_found(res, expected);
    }
}

#[test]
fn test_timestamp_out_of_range_nearest_timestamp() {
    for (table, timestamp, bound, expected_nearest) in [
        (
            standard_table(),
            0,
            Bound::GreatestLower,
            NearestTimestamp::Earliest(50),
        ),
        (
            standard_table(),
            1000,
            Bound::LeastUpper,
            NearestTimestamp::Latest(400),
        ),
        (
            ict_from_creation(),
            50,
            Bound::GreatestLower,
            NearestTimestamp::Earliest(100),
        ),
    ] {
        let history = table.history();
        let err = timestamp_to_version(&history, timestamp, bound, HistoryCommitType::Published)
            .unwrap_err();
        let LogHistoryError::TimestampOutOfRange {
            nearest_timestamp, ..
        } = err
        else {
            panic!("expected TimestampOutOfRange, got {err:?}");
        };
        assert_eq!(nearest_timestamp, expected_nearest);
    }
}

#[test]
fn test_missing_ict_after_enablement() {
    let table = Table::new(
        &[
            (50, None),
            (150, None),
            (250, None),
            (350, Some(300)),
            (450, None),
        ],
        Some(3),
    );
    let mut history = table.history();
    let res = timestamp_to_version(
        &history,
        350,
        Bound::LeastUpper,
        HistoryCommitType::Published,
    );
    assert!(
        matches!(res, Err(LogHistoryError::Internal { .. })),
        "Expected internal error for missing ICT: {res:?}"
    );

    // Also where the snapshot's own timestamp is known.
    history.timestamp = Ok(1000);
    let res = timestamp_to_version(
        &history,
        350,
        Bound::LeastUpper,
        HistoryCommitType::Published,
    );
    assert!(
        matches!(res, Err(LogHistoryError::Internal { .. })),
        "Expected internal error for missing ICT: {res:?}"
    );
}

fn assert_latest(table: &Table, cases: &[(Timestamp, Option<CommitAt>)]) {
    let history = table.history();
    for (timestamp, expected) in cases {
        let res = latest_version_as_of(&history, *timestamp, HistoryCommitType::Published);
        match expected {
            Some(commit) => assert_eq!(res.unwrap(), *commit),
            None => assert!(res.is_err(), "{res:?}"),
        }
    }
}

fn assert_first(table: &Table, cases: &[(Timestamp, Option<CommitAt>)]) {
    let history = table.history();
    for (timestamp, expected) in cases {
        let res = first_version_after(&history, *timestamp, HistoryCommitType::Published);
        match expected {
            Some(commit) => assert_eq!(res.unwrap(), *commit),
            None => assert!(res.is_err(), "{res:?}"),
        }
    }
}

#[test]
fn test_latest_version_as_of() {
    assert_latest(
        &standard_table(),
        &[
            (0, None),
            (50, at(0, 50)),
            (100, at(0, 50)),
            (150, at(1, 150)),
            (251, at(2, 250)),
            (299, at(2, 250)),
            (300, at(3, 300)),
            (301, at(3, 300)),
            (350, at(3, 300)),
            (1000, at(4, 400)),
        ],
    );
}

#[test]
fn test_first_version_after() {
    assert_first(
        &standard_table(),
        &[
            (0, at(0, 50)),
            (50, at(0, 50)),
            (100, at(1, 150)),
            (150, at(1, 150)),
            (251, at(3, 300)),
            (299, at(3, 300)),
            (300, at(3, 300)),
            (301, at(4, 400)),
            (350, at(4, 400)),
            (1000, None),
        ],
    );
}

type Range = Result<(Version, Option<Version>), ()>;

fn assert_ranges(table: &Table, cases: &[(Timestamp, Option<Timestamp>, Range)]) {
    let history = table.history();
    for (start, end, expected) in cases {
        let res = timestamp_range_to_versions(&history, *start, *end);
        match expected {
            Ok(v) => assert_eq!(res.unwrap(), *v),
            Err(()) => assert!(res.is_err(), "{res:?}"),
        }
    }
}

#[test]
fn test_timestamp_range_to_versions() {
    assert_ranges(
        &standard_table(),
        &[
            (50, Some(300), Ok((0, Some(3)))),
            (100, None, Ok((1, None))),
            (150, Some(150), Ok((1, Some(1)))),
            (100, Some(350), Ok((1, Some(3)))),
            (0, Some(1000), Ok((0, Some(4)))),
            (50, Some(150), Ok((0, Some(1)))),
            (150, Some(250), Ok((1, Some(2)))),
            (300, Some(400), Ok((3, Some(4)))),
            (100, Some(250), Ok((1, Some(2)))),
            (251, None, Ok((3, None))),
            (299, Some(301), Ok((3, Some(3)))),
            (300, Some(1000), Ok((3, Some(4)))),
            (350, Some(400), Ok((4, Some(4)))),
            (301, Some(1000), Ok((4, Some(4)))),
            (0, Some(40), Err(())),
            (500, Some(1000), Err(())),
        ],
    );
}

#[test]
fn test_timestamp_range_invalid_range() {
    let history = standard_table().history();
    let res = timestamp_range_to_versions(&history, 300, Some(100));
    assert!(
        matches!(
            res,
            Err(Error::LogHistory(ref e))
                if matches!(**e, LogHistoryError::InvalidTimestampRange { .. })
        ),
        "{res:?}"
    );
}

#[test]
fn test_timestamp_range_empty_range() {
    let history = standard_table().history();
    let res = timestamp_range_to_versions(&history, 51, Some(149));
    assert!(
        matches!(
            res,
            Err(Error::LogHistory(ref e))
                if matches!(**e, LogHistoryError::EmptyTimestampRange { between_version: 0, .. })
        ),
        "{res:?}"
    );
}

#[test]
fn test_latest_version_as_of_file_mod_only() {
    assert_latest(
        &file_mod_only(),
        &[(200, at(1, 200)), (150, at(0, 100)), (500, at(2, 300)), (50, None)],
    );
}

#[test]
fn test_first_version_after_file_mod_only() {
    assert_first(
        &file_mod_only(),
        &[(200, at(1, 200)), (150, at(1, 200)), (50, at(0, 100)), (500, None)],
    );
}

#[test]
fn test_latest_version_as_of_ict_from_creation() {
    assert_latest(
        &ict_from_creation(),
        &[(200, at(1, 200)), (150, at(0, 100)), (500, at(2, 300)), (50, None)],
    );
}

#[test]
fn test_first_version_after_ict_from_creation() {
    assert_first(
        &ict_from_creation(),
        &[(200, at(1, 200)), (150, at(1, 200)), (50, at(0, 100)), (500, None)],
    );
}

#[test]
fn test_latest_version_as_of_non_monotonic() {
    assert_latest(
        &non_monotonic(),
        &[
            (200, at(1, 200)),
            (201, at(2, 201)),
            (202, at(3, 202)),
            (250, at(3, 202)),
            (150, at(0, 100)),
        ],
    );
}

#[test]
fn test_first_version_after_non_monotonic() {
    assert_first(
        &non_monotonic(),
        &[
            (200, at(1, 200)),
            (201, at(2, 201)),
            (202, at(3, 202)),
            (203, at(4, 300)),
            (150, at(1, 200)),
        ],
    );
}

#[test]
fn test_timestamp_to_version_with_commit_type() {
    let table = Table::with_log_cleanup(&[5, 10, 20, 30, 40, 50], 3, 0);
    for (commit_type, timestamp, bound, expected) in [
        (HistoryCommitType::Published, 15, Bound::GreatestLower, at(1, 10)),
        (HistoryCommitType::Recreatable, 15, Bound::GreatestLower, None),
        (HistoryCommitType::Published, 25, Bound::GreatestLower, at(2, 20)),
        (HistoryCommitType::Recreatable, 25, Bound::GreatestLower, None),
        (HistoryCommitType::Published, 15, Bound::LeastUpper, at(2, 20)),
        (HistoryCommitType::Recreatable, 15, Bound::LeastUpper, at(3, 30)),
    ] {
        let history = table.history();
        let res = timestamp_to_version(&history, timestamp, bound, commit_type);
        assert_found(res, expected);
    }
}

#[test]
fn test_timestamp_to_version_recreatable_matches_published_when_v0_present() {
    let table = standard_table();
    for timestamp in [0, 50, 100, 250, 300, 350, 1000] {
        for bound in [Bound::GreatestLower, Bound::LeastUpper] {
            let [published, recreatable] =
                [HistoryCommitType::Published, HistoryCommitType::Recreatable].map(|commit_type| {
                    let history = table.history();
                    timestamp_to_version(&history, timestamp, bound, commit_type)
                });
            match (published, recreatable) {
                (Ok(p), Ok(r)) => assert_eq!(p, r, "diverged at ts={timestamp} bound={bound:?}"),
                (Err(_), Err(_)) => {}
                (p, r) => {
                    panic!("Published and Recreatable diverged at ts={timestamp} bound={bound:?}: {p:?} vs {r:?}")
                }
            }
        }
    }
}

#[test]
fn test_latest_version_as_of_with_commit_type() {
    let table = Table::with_log_cleanup(&[5, 10, 20, 30, 40, 50], 3, 0);
    for (commit_type, timestamp, expected) in [
        (HistoryCommitType::Published, 25, at(2, 20)),
        (HistoryCommitType::Recreatable, 25, None),
    ] {
        let res = latest_version_as_of(&table.history(), timestamp, commit_type);
        match expected {
            Some(commit) => assert_eq!(res.unwrap(), commit),
            None => assert!(res.is_err(), "{res:?}"),
        }
    }
}

#[test]
fn test_first_version_after_with_commit_type() {
    let table = Table::with_log_cleanup(&[5, 10, 20, 30, 40, 50], 3, 0);
    for (commit_type, timestamp, expected) in [
        (HistoryCommitType::Published, 15, CommitAt::new(2, 20)),
        (HistoryCommitType::Recreatable, 15, CommitAt::new(3, 30)),
    ] {
        let history = table.history();
        let res = first_version_after(&history, timestamp, commit_type).unwrap();
        assert_eq!(res, expected);
    }
}

#[test]
fn test_timestamp_range_file_mod_only() {
    assert_ranges(
        &file_mod_only(),
        &[
            (100, Some(200), Ok((0, Some(1)))),
            (50, Some(500), Ok((0, Some(2)))),
            (150, None, Ok((1, None))),
            (100, Some(300), Ok((0, Some(2)))),
            (150, Some(250), Ok((1, Some(1)))),
            (200, Some(200), Ok((1, Some(1)))),
            (50, Some(80), Err(())),
            (400, Some(500), Err(())),
        ],
    );
}

#[test]
fn test_timestamp_range_ict_from_creation() {
    assert_ranges(
        &ict_from_creation(),
        &[
            (100, Some(200), Ok((0, Some(1)))),
            (50, Some(500), Ok((0, Some(2)))),
            (150, None, Ok((1, None))),
            (100, Some(300), Ok((0, Some(2)))),
            (150, Some(250), Ok((1, Some(1)))),
            (200, Some(200), Ok((1, Some(1)))),
            (50, Some(80), Err(())),
            (400, Some(500), Err(())),
        ],
    );
}

fn commits(versions: std::ops::RangeInclusive<Version>) -> Vec<ListedPath> {
    versions.map(|v| Ok(commit(v, 0))).collect()
}

fn checkpoint(version: Version) -> ListedPath {
    Ok(log_path(version, 0, LogPathFileType::ClassicCheckpoint))
}

fn uuid_checkpoint(version: Version) -> ListedPath {
    Ok(log_path(version, 0, LogPathFileType::UuidCheckpoint))
}

fn parts(version: Version, num_parts: u32) -> Vec<ListedPath> {
    (1..=num_parts)
        .map(|part_num| {
            let kind = LogPathFileType::MultiPartCheckpoint { part_num, num_parts };
            Ok(log_path(version, 0, kind))
        })
        .collect()
}

/// The order of the file names: by version, and a checkpoint before the commit of its version.
fn listed(mut paths: Vec<ListedPath>) -> Vec<ListedPath> {
    paths.sort_by_key(|path| {
        let path = path.as_ref().unwrap();
        (path.version, matches!(path.file_type, LogPathFileType::Commit))
    });
    paths
}

enum Expected {
    Version(Version),
    NoCommitsFound,
    NoRecreatableCommit,
    CCv2MissingV0FilesystemCommit,
}

fn assert_earliest(res: Result<Version, Error>, expected: Expected) {
    match expected {
        Expected::Version(v) => assert_eq!(res.unwrap(), v),
        Expected::NoCommitsFound => assert!(
            matches!(&res, Err(Error::LogHistory(e)) if matches!(**e, LogHistoryError::NoCommitsFound { .. })),
            "expected NoCommitsFound error, got {res:?}"
        ),
        Expected::NoRecreatableCommit => assert!(
            matches!(&res, Err(Error::LogHistory(e)) if matches!(**e, LogHistoryError::NoRecreatableCommit { .. })),
            "expected NoRecreatableCommit error, got {res:?}"
        ),
        Expected::CCv2MissingV0FilesystemCommit => {
            assert!(matches!(res, Err(Error::Generic(_))), "{res:?}")
        }
    }
}

#[test]
fn earliest_recreatable_returns_expected() {
    let with = |mut first: Vec<ListedPath>, rest: Vec<ListedPath>| {
        first.extend(rest);
        listed(first)
    };
    let mut incomplete = parts(3, 3);
    incomplete.remove(0);
    let cases: Vec<(Vec<ListedPath>, Option<Version>, Expected)> = vec![
        (commits(0..=5), None, Expected::Version(0)),
        (with(vec![checkpoint(5)], commits(5..=9)), None, Expected::Version(5)),
        (with(vec![uuid_checkpoint(5)], commits(5..=9)), None, Expected::Version(5)),
        (with(parts(5, 3), commits(5..=9)), None, Expected::Version(5)),
        (commits(0..=3), Some(0), Expected::Version(0)),
        (commits(0..=3), Some(4), Expected::Version(0)),
        (with(commits(2..=4), vec![uuid_checkpoint(4)]), None, Expected::Version(4)),
        (
            with(with(vec![checkpoint(3)], parts(7, 2)), commits(7..=8)),
            None,
            Expected::Version(7),
        ),
        (
            with(with(vec![checkpoint(3)], commits(3..=7)), vec![checkpoint(7)]),
            None,
            Expected::Version(3),
        ),
        (
            with(with(incomplete, commits(3..=7)), vec![checkpoint(7)]),
            None,
            Expected::Version(7),
        ),
        (with(commits(0..=5), vec![checkpoint(5)]), None, Expected::Version(0)),
        (
            with(vec![checkpoint(5)], commits(6..=8)),
            None,
            Expected::NoRecreatableCommit,
        ),
        (vec![], None, Expected::NoCommitsFound),
        (
            vec![Ok(log_path(5, 0, LogPathFileType::Crc))],
            None,
            Expected::NoCommitsFound,
        ),
        (
            vec![Ok(log_path(0, 0, LogPathFileType::CompactedCommit { hi: 5 }))],
            None,
            Expected::NoCommitsFound,
        ),
        (vec![checkpoint(5)], None, Expected::NoCommitsFound),
        (vec![], Some(5), Expected::NoCommitsFound),
        (vec![], Some(0), Expected::CCv2MissingV0FilesystemCommit),
        (commits(2..=3), None, Expected::NoRecreatableCommit),
        (commits(2..=3), Some(0), Expected::NoRecreatableCommit),
        (
            with(
                with(vec![checkpoint(5)], commits(5..=9)),
                vec![Ok(log_path(9, 0, LogPathFileType::StagedCommit))],
            ),
            None,
            Expected::Version(5),
        ),
    ];
    for (listing, ratified, expected) in cases {
        let res = get_earliest_recreatable_commit(&listing, LOG_ROOT, ratified);
        assert_earliest(res, expected);
    }
}

#[test]
fn test_empty_checkpoint_is_skipped() {
    let mut empty = log_path(5, 0, LogPathFileType::ClassicCheckpoint);
    empty.location.size = 0;
    assert!(!should_process_log_file(&empty));
    let mut paths = vec![Ok(empty)];
    paths.extend(commits(5..=9));
    paths.push(checkpoint(8));
    // What is empty is not listed.
    let listing: Vec<ListedPath> = listed(paths)
        .into_iter()
        .filter(|path| should_process_log_file(path.as_ref().unwrap()))
        .collect();
    let version = get_earliest_recreatable_commit(&listing, LOG_ROOT, None).unwrap();
    assert_eq!(version, 8);
}

#[test]
fn test_get_earliest_published_commit_version() {
    for (num_commits, ratified, expected) in [
        (3, None, Expected::Version(0)),
        (3, Some(0), Expected::Version(0)),
        (3, Some(2), Expected::Version(0)),
        (0, None, Expected::NoCommitsFound),
        (0, Some(2), Expected::NoCommitsFound),
        (0, Some(0), Expected::CCv2MissingV0FilesystemCommit),
    ] {
        let listing: Vec<ListedPath> = (0..num_commits).map(|v| Ok(commit(v, v as i64))).collect();
        let res = get_earliest_published_commit_version(&listing, LOG_ROOT, ratified);
        assert_earliest(res, expected);
    }
}

#[test]
fn test_get_earliest_published_commit_version_ignores_staged_commits() {
    let listing = vec![
        Ok(log_path(0, 0, LogPathFileType::StagedCommit)),
        Ok(commit(0, 0)),
        Ok(log_path(1, 0, LogPathFileType::StagedCommit)),
    ];
    let res = get_earliest_published_commit_version(&listing, LOG_ROOT, None);
    assert_eq!(res.unwrap(), 0);
    let listing = vec![Ok(log_path(1, 0, LogPathFileType::StagedCommit))];
    let res = get_earliest_published_commit_version(&listing, LOG_ROOT, None);
    assert_earliest(res, Expected::NoCommitsFound);
}

#[test]
fn earliest_commit_goes_by_the_kind() {
    let listing = listed({
        let mut paths = commits(2..=4);
        paths.push(checkpoint(4));
        paths
    });
    let published = get_earliest_commit(&listing, LOG_ROOT, None, HistoryCommitType::Published);
    assert_eq!(published.unwrap(), 2);
    let recreatable = get_earliest_commit(&listing, LOG_ROOT, None, HistoryCommitType::Recreatable);
    assert_eq!(recreatable.unwrap(), 4);
    let broken = vec![Err("cannot list".to_string())];
    for kind in [HistoryCommitType::Published, HistoryCommitType::Recreatable] {
        let error = get_earliest_commit(&broken, LOG_ROOT, None, kind).unwrap_err();
        assert_eq!(error.to_string(), "cannot list");
    }
}

#[test]
fn the_snapshot_answers_from_its_time_on() {
    assert!(answer_from_snapshot(4, 400, 399, Bound::LeastUpper).is_none());
    assert_eq!(
        answer_from_snapshot(4, 400, 400, Bound::LeastUpper).unwrap().unwrap(),
        CommitAt::new(4, 400)
    );
    assert_eq!(
        answer_from_snapshot(4, 400, 500, Bound::GreatestLower).unwrap().unwrap(),
        CommitAt::new(4, 400)
    );
    assert!(answer_from_snapshot(4, 400, 500, Bound::LeastUpper).unwrap().is_err());
}

#[test]
fn modification_times_are_searched_in_order() {
    let commits = [commit(0, 100), commit(1, 90), commit(2, 80)];
    // Counted as 100, 101 and 102.
    assert_found(
        linear_search_file_mod_timestamps(&commits, 101, Bound::GreatestLower),
        at(1, 101),
    );
    assert_found(
        linear_search_file_mod_timestamps(&commits, 102, Bound::LeastUpper),
        at(2, 102),
    );
    let error = linear_search_file_mod_timestamps(&commits, 103, Bound::LeastUpper).unwrap_err();
    let LogHistoryError::TimestampOutOfRange { nearest_timestamp, .. } = error else {
        panic!("expected TimestampOutOfRange, got {error:?}");
    };
    // The hint finds the last commit.
    assert_eq!(nearest_timestamp, NearestTimestamp::Latest(102));
    assert_found(linear_search_file_mod_timestamps(&[], 1, Bound::LeastUpper), None);
}

#[test]
fn in_commit_timestamps_are_read_as_needed() {
    let commits: Vec<ParsedLogPath> = (0..100).map(|v| commit(v, 0)).collect();
    let reads: Vec<Result<Timestamp, String>> = (0..100).map(|v| Ok(v * 10)).collect();
    assert_found(
        binary_search_ict_timestamps(&commits, 505, Bound::GreatestLower, &reads),
        at(50, 500),
    );
    assert_found(
        binary_search_ict_timestamps(&commits, 505, Bound::LeastUpper, &reads),
        at(51, 510),
    );
    // Driven read by read, the search looks at few commits.
    let mut search = IctSearch::start(commits.len(), 505, Bound::LeastUpper).unwrap();
    let mut count = 0;
    let found = loop {
        count += 1;
        let index = search.next_read();
        match search.supply(&commits, reads[index].clone()) {
            IctStep::Continue(next) => search = next,
            IctStep::Done(result) => break result,
        }
    };
    assert_found(found, at(51, 510));
    assert!(count <= 9, "{count} reads");
}

#[test]
fn segments_are_searched_by_kind_of_timestamp() {
    let table = standard_table();
    let segment = table.segment(4);
    let enablement = Ok(table.ict_enablement(4));
    assert_found(
        search_segment(&enablement, &segment, 0, 275, Bound::LeastUpper),
        at(3, 300),
    );
    assert_found(
        search_segment(&enablement, &segment, 0, 399, Bound::GreatestLower),
        at(3, 300),
    );
    assert_found(
        search_segment(&enablement, &segment, 0, 160, Bound::GreatestLower),
        at(1, 150),
    );
    assert_found(
        search_segment(&enablement, &segment, 2, 160, Bound::GreatestLower),
        None,
    );
    assert_found(
        search_segment(&enablement, &segment, 2, 100, Bound::LeastUpper),
        at(2, 250),
    );
}

#[test]
fn later_timestamps_find_later_versions() {
    for table in [standard_table(), ict_from_creation(), file_mod_only(), non_monotonic()] {
        let history = table.history();
        let mut last = 0;
        for timestamp in 0..600 {
            if let Ok(found) = latest_version_as_of(&history, timestamp, HistoryCommitType::Published)
            {
                assert!(last <= found.version);
                assert!(found.timestamp <= timestamp);
                last = found.version;
            }
        }
    }
}

#[test]
fn errors_have_texts() {
    for (error, expected) in [
        (
            LogHistoryError::TimestampOutOfRange {
                timestamp: 5,
                bound: Bound::GreatestLower,
                nearest_timestamp: NearestTimestamp::Earliest(10),
            },
            "Timestamp 5 is out of range: the earliest commit is at 10",
        ),
        (
            LogHistoryError::InvalidTimestampRange {
                start_timestamp: 2,
                end_timestamp: 1,
            },
            "Invalid timestamp range: 2 is after 1",
        ),
        (
            LogHistoryError::NoCommitsFound {
                log_root: "root".to_string(),
            },
            "No commits found in root",
        ),
    ] {
        assert_eq!(error.to_string(), expected);
        assert_eq!(Error::LogHistory(Box::new(error)).to_string(), expected);
    }
}

/// Commit 0 is gone, and the table can be reconstructed from the checkpoint of version 2 on.
fn cleaned_up_with_ict() -> Table {
    Table {
        checkpoint: Some(2),
        cleaned_up: 1,
        ..standard_table()
    }
}

#[test]
fn recreatable_answers_are_not_before_the_checkpoint() {
    let table = cleaned_up_with_ict();
    let history = table.history();
    let published = HistoryCommitType::Published;
    let recreatable = HistoryCommitType::Recreatable;
    let earliest = get_earliest_commit(&table.listing(), LOG_ROOT, None, recreatable).unwrap();
    assert_eq!(earliest, 2);
    for (commit_type, timestamp, bound, expected) in [
        (published, 100, Bound::LeastUpper, at(1, 150)),
        (recreatable, 100, Bound::LeastUpper, at(2, 250)),
        (published, 200, Bound::GreatestLower, at(1, 150)),
        (recreatable, 200, Bound::GreatestLower, None),
        (recreatable, 260, Bound::GreatestLower, at(2, 250)),
        (recreatable, 260, Bound::LeastUpper, at(3, 300)),
        (recreatable, 300, Bound::GreatestLower, at(3, 300)),
        (recreatable, 350, Bound::GreatestLower, at(3, 300)),
        (recreatable, 500, Bound::GreatestLower, at(4, 400)),
    ] {
        let res = timestamp_to_version(&history, timestamp, bound, commit_type);
        if let (HistoryCommitType::Recreatable, Ok(commit)) = (commit_type, &res) {
            assert!(commit.version >= earliest);
        }
        assert_found(res, expected);
    }
}

#[test]
fn the_limit_counts_back_from_the_snapshot() {
    let listing = || Ok(cleaned_up_with_ict().listing());
    let recreatable = HistoryCommitType::Recreatable;
    let limit = |version| listing_limit(&listing(), LOG_ROOT, version, recreatable);
    assert_eq!(limit(4).unwrap(), Some(3));
    assert_eq!(limit(2).unwrap(), Some(1));
    assert!(matches!(limit(1), Err(LogHistoryError::Internal { .. })));
    let any = listing_limit(&listing(), LOG_ROOT, 4, HistoryCommitType::Published);
    assert_eq!(any.unwrap(), None);
}

#[test]
fn what_could_not_be_listed_matters_only_to_a_search() {
    let mut history = file_mod_only().history();
    history.listing = Err("cannot list".to_string());
    let recreatable = HistoryCommitType::Recreatable;
    let res = timestamp_to_version(&history, 400, Bound::GreatestLower, recreatable);
    assert_found(res, at(2, 300));
    let res = timestamp_to_version(&history, 150, Bound::GreatestLower, recreatable);
    assert!(matches!(res, Err(LogHistoryError::Internal { .. })), "{res:?}");
}

#[test]
fn an_empty_commit_zero_is_published_but_not_recreatable() {
    let mut empty = commit(0, 10);
    empty.location.size = 0;
    let listing: Vec<ListedPath> = vec![
        Ok(empty),
        Ok(commit(1, 20)),
        Ok(log_path(2, 0, LogPathFileType::ClassicCheckpoint)),
        Ok(commit(2, 30)),
    ];
    let published = get_earliest_commit(&listing, LOG_ROOT, None, HistoryCommitType::Published);
    assert_eq!(published.unwrap(), 0);
    let recreatable = get_earliest_commit(&listing, LOG_ROOT, None, HistoryCommitType::Recreatable);
    assert_eq!(recreatable.unwrap(), 2);
}

#[test]
fn versions_on_both_sides_are_neighbours() {
    for table in [standard_table(), ict_from_creation(), file_mod_only(), non_monotonic()] {
        let history = table.history();
        let published = HistoryCommitType::Published;
        for timestamp in 0..=500 {
            let Ok(before) = latest_version_as_of(&history, timestamp, published) else {
                continue;
            };
            match first_version_after(&history, timestamp, published) {
                Ok(after) => {
                    assert!(before.timestamp <= timestamp && timestamp <= after.timestamp);
                    if before.timestamp == timestamp {
                        assert_eq!(after, before);
                    } else {
                        assert_eq!(after.version, before.version + 1);
                    }
                }
                Err(_) => {
                    assert_eq!(before.version, history.version);
                    assert!(before.timestamp < timestamp);
                }
            }
        }
    }
}

#[test]
fn in_commit_timestamps_are_read_from_where_they_matter() {
    let published = HistoryCommitType::Published;
    let recreatable = HistoryCommitType::Recreatable;
    let lower = Bound::GreatestLower;
    let start = |table: &Table, timestamp, commit_type| {
        ict_search_start(&table.history(), timestamp, lower, commit_type)
    };
    let table = standard_table();
    assert_eq!(start(&table, 350, published), Some(3));
    // Found by modification time, at the enablement, or from the snapshot.
    assert_eq!(start(&table, 200, published), None);
    assert_eq!(start(&table, 300, published), None);
    assert_eq!(start(&table, 400, published), None);
    assert_eq!(start(&ict_from_creation(), 150, published), Some(0));
    assert_eq!(start(&file_mod_only(), 150, published), None);
    let cleaned_up = cleaned_up_with_ict();
    assert_eq!(start(&cleaned_up, 350, published), Some(2));
    assert_eq!(start(&cleaned_up, 350, recreatable), Some(2));
    let mut history = table.history();
    history.segment = Err("cannot list".to_string());
    assert_eq!(ict_search_start(&history, 350, lower, published), None);
    let mut history = table.history();
    history.listing = Err("cannot list".to_string());
    assert_eq!(ict_search_start(&history, 350, lower, recreatable), None);
    assert_eq!(ict_search_start(&history, 350, lower, published), Some(3));
}

#[test]
fn what_is_not_read_makes_no_difference() {
    let table = standard_table();
    for timestamp in [200, 300, 350, 400] {
        let published = HistoryCommitType::Published;
        let lower = Bound::GreatestLower;
        let expected = timestamp_to_version(&table.history(), timestamp, lower, published);
        let mut history = table.history();
        let from = ict_search_start(&history, timestamp, lower, published).unwrap_or(5);
        for read in history.segment.as_mut().unwrap().in_commit_timestamps[..from].iter_mut() {
            *read = Ok(-1);
        }
        let found = timestamp_to_version(&history, timestamp, lower, published);
        assert_eq!(found.unwrap(), expected.unwrap());
    }
}
