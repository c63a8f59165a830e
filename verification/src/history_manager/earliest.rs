//! The earliest version of a table: the lowest commit in its log, or the lowest version that the
//! log can still reconstruct.

use vstd::prelude::*;

use super::error::LogHistoryError;
use super::{HistoryCommitType, LogPathFileType, ParsedLogPath};
use crate::error::{DeltaResult, Error};
use crate::Version;

verus! {

/// One entry of a listing of the log directory: a file, or the text of the engine's failure to
/// list it.
pub type ListedPath = Result<ParsedLogPath, String>;

/// Whether `error` says that `log_root` holds no commit. When a catalog has ratified version 0, its
/// commit must have been published first, so an empty log is reported as a broken table.
pub open spec fn is_no_commits_error(
    error: Error,
    log_root: Seq<char>,
    earliest_ratified_commit_version: Option<Version>,
) -> bool {
    if earliest_ratified_commit_version == Some(0u64) {
        error matches Error::Generic(message) && message@
            == "expected a published v0 commit for catalog-managed table "@ + log_root
            + ", but the log listing returned no commits"@
    } else {
        error matches Error::LogHistory(inner) && (*inner matches LogHistoryError::NoCommitsFound {
            log_root: root,
        } && root@ == log_root)
    }
}

fn no_commits_error(
    log_root: &str,
    earliest_ratified_commit_version: Option<Version>,
) -> (error: Error)
    ensures
        is_no_commits_error(error, log_root@, earliest_ratified_commit_version),
{
    if let Some(version) = earliest_ratified_commit_version {
        if version == 0 {
            let mut message: String = "expected a published v0 commit for catalog-managed table ".to_owned();
            message.append(log_root);
            message.append(", but the log listing returned no commits");
            return Error::Generic(message);
        }
    }
    Error::LogHistory(Box::new(LogHistoryError::NoCommitsFound { log_root: log_root.to_owned() }))
}

// ---------------------------------------------------------------------------------------------
// The lowest published commit
// ---------------------------------------------------------------------------------------------

/// Whether entry `i` of a listing decides the earliest published commit: it could not be listed, or
/// it is a commit.
pub open spec fn ends_published_scan(listing: Seq<ListedPath>, i: int) -> bool {
    match listing[i] {
        Err(_) => true,
        Ok(path) => path.file_type is Commit,
    }
}

/// What the query for the earliest published commit answers.
pub open spec fn published_outcome(
    listing: Seq<ListedPath>,
    log_root: Seq<char>,
    earliest_ratified_commit_version: Option<Version>,
    r: DeltaResult<Version>,
) -> bool {
    ||| exists|i: int| #[trigger]
        ends_published_scan(listing, i) && 0 <= i < listing.len() && (forall|j: int|
            0 <= j < i ==> !#[trigger] ends_published_scan(listing, j)) && match listing[i] {
            Err(text) => r == Err::<Version, Error>(Error::Engine(text)),
            Ok(path) => r == Ok::<Version, Error>(path.version),
        }
    ||| (forall|j: int| 0 <= j < listing.len() ==> !#[trigger] ends_published_scan(listing, j))
        && (r matches Err(error) && is_no_commits_error(
        error,
        log_root,
        earliest_ratified_commit_version,
    ))
}

/// The version of the first commit in a listing of the log directory, which goes from the lowest
/// version up.
pub fn get_earliest_published_commit_version(
    listing: &[ListedPath],
    log_root: &str,
    earliest_ratified_commit_version: Option<Version>,
) -> (r: DeltaResult<Version>)
    ensures
        published_outcome(listing@, log_root@, earliest_ratified_commit_version, r),
{
    let mut i: usize = 0;
    while i < listing.len()
        invariant
            i <= listing.len(),
            forall|j: int| 0 <= j < i ==> !#[trigger] ends_published_scan(listing@, j),
        decreases listing.len() - i,
    {
        match &listing[i] {
            Err(text) => {
                let error: Error = Error::Engine(text.clone());
                assert(ends_published_scan(listing@, i as int));
                return Err(error);
            },
            Ok(path) => {
                if matches!(path.file_type, LogPathFileType::Commit) {
                    assert(ends_published_scan(listing@, i as int));
                    return Ok(path.version);
                }
            },
        }
        i += 1;
    }
    Err(no_commits_error(log_root, earliest_ratified_commit_version))
}

// ---------------------------------------------------------------------------------------------
// The lowest version that can be reconstructed
// ---------------------------------------------------------------------------------------------

/// A file without content is left out of account.
pub open spec fn counts(path: ParsedLogPath) -> bool {
    path.location.size > 0
}

/// Whether a file of the log directory is taken into account: one without content is not.
pub fn should_process_log_file(path: &ParsedLogPath) -> (r: bool)
    ensures
        r == counts(*path),
{
    path.location.size > 0
}

/// Whether entry `i` is part `part` of a checkpoint of `version` that has `num_parts` parts.
pub open spec fn is_part(
    listing: Seq<ListedPath>,
    i: int,
    version: Version,
    num_parts: u32,
    part: u32,
) -> bool {
    listing[i] matches Ok(path) && counts(path) && path.version == version && path.file_type == (
    LogPathFileType::MultiPartCheckpoint { part_num: part, num_parts })
}

/// The parts of a checkpoint of `version` in `num_parts` parts among the first `n` entries.
pub open spec fn parts_seen(
    listing: Seq<ListedPath>,
    n: int,
    version: Version,
    num_parts: u32,
) -> Set<u32> {
    Set::new(|part: u32| is_part_before(listing, n, version, num_parts, part))
}

/// Whether one of the first `n` entries is part `part` of a checkpoint of `version` that has
/// `num_parts` parts.
pub open spec fn is_part_before(
    listing: Seq<ListedPath>,
    n: int,
    version: Version,
    num_parts: u32,
    part: u32,
) -> bool {
    exists|i: int| 0 <= i < n && #[trigger] is_part(listing, i, version, num_parts, part)
}

/// Whether a checkpoint is complete with entry `i`: it is a whole checkpoint, or the part after
/// which all parts have been seen.
pub open spec fn completes_checkpoint(listing: Seq<ListedPath>, i: int) -> bool {
    listing[i] matches Ok(path) && counts(path) && match path.file_type {
        LogPathFileType::ClassicCheckpoint => true,
        LogPathFileType::UuidCheckpoint => true,
        LogPathFileType::MultiPartCheckpoint { part_num, num_parts } => parts_seen(
            listing,
            i + 1,
            path.version,
            num_parts,
        ).len() == num_parts,
        _ => false,
    }
}

/// The version of the last checkpoint that is complete within the first `n` entries.
pub open spec fn last_checkpoint(listing: Seq<ListedPath>, n: int) -> Option<Version>
    decreases n,
{
    if n <= 0 {
        None
    } else if completes_checkpoint(listing, n - 1) {
        Some(listing[n - 1]->Ok_0.version)
    } else {
        last_checkpoint(listing, n - 1)
    }
}

/// Whether entry `i` is a commit that counts.
pub open spec fn is_commit(listing: Seq<ListedPath>, i: int) -> bool {
    listing[i] matches Ok(path) && counts(path) && path.file_type is Commit
}

/// The version of the first commit among the first `n` entries.
pub open spec fn first_commit(listing: Seq<ListedPath>, n: int) -> Option<Version>
    decreases n,
{
    if n <= 0 {
        None
    } else {
        match first_commit(listing, n - 1) {
            Some(version) => Some(version),
            None => if is_commit(listing, n - 1) {
                Some(listing[n - 1]->Ok_0.version)
            } else {
                None
            },
        }
    }
}

/// Whether the table can be reconstructed, as entry `i` shows: it is commit 0, or a commit after a
/// complete checkpoint that is no older than the first commit.
pub open spec fn anchors(listing: Seq<ListedPath>, i: int) -> bool {
    is_commit(listing, i) && (listing[i]->Ok_0.version == 0 || (last_checkpoint(
        listing,
        i,
    ) matches Some(checkpoint) && checkpoint >= first_commit(listing, i + 1)->Some_0))
}

/// The version that entry `i`, which anchors the table, makes reconstructible.
pub open spec fn anchored_version(listing: Seq<ListedPath>, i: int) -> Version {
    if listing[i]->Ok_0.version == 0 {
        0
    } else {
        last_checkpoint(listing, i)->Some_0
    }
}

/// Whether entry `i` of a listing decides the earliest recreatable version: it could not be listed,
/// or it anchors the table.
pub open spec fn ends_recreatable_scan(listing: Seq<ListedPath>, i: int) -> bool {
    listing[i] is Err || anchors(listing, i)
}

/// What the query for the earliest recreatable version answers.
pub open spec fn recreatable_outcome(
    listing: Seq<ListedPath>,
    log_root: Seq<char>,
    earliest_ratified_commit_version: Option<Version>,
    r: DeltaResult<Version>,
) -> bool {
    ||| exists|i: int| #[trigger]
        ends_recreatable_scan(listing, i) && 0 <= i < listing.len() && (forall|j: int|
            0 <= j < i ==> !#[trigger] ends_recreatable_scan(listing, j)) && match listing[i] {
            Err(text) => r == Err::<Version, Error>(Error::Engine(text)),
            Ok(_) => r == Ok::<Version, Error>(anchored_version(listing, i)),
        }
    ||| (forall|j: int| 0 <= j < listing.len() ==> !#[trigger] ends_recreatable_scan(listing, j))
        && (r matches Err(error) && if first_commit(listing, listing.len() as int) is Some {
        error matches Error::LogHistory(inner) && (
        *inner matches LogHistoryError::NoRecreatableCommit { log_root: root } && root@ == log_root)
    } else {
        is_no_commits_error(error, log_root, earliest_ratified_commit_version)
    })
}

/// A part of a checkpoint that has been seen.
#[derive(Clone, Copy, PartialEq, Eq, Structural)]
struct SeenPart {
    version: Version,
    num_parts: u32,
    part: u32,
}

/// The parts noted after the first `n` entries: each part among them, once.
spec fn notes_parts(seen: Seq<SeenPart>, listing: Seq<ListedPath>, n: int) -> bool {
    &&& seen.no_duplicates()
    &&& forall|version: Version, num_parts: u32, part: u32|
        seen.contains(SeenPart { version, num_parts, part }) <==> #[trigger] is_part_before(
            listing,
            n,
            version,
            num_parts,
            part,
        )
}

/// An entry that is no part changes nothing.
proof fn lemma_notes_parts_skip(seen: Seq<SeenPart>, listing: Seq<ListedPath>, n: int)
    requires
        notes_parts(seen, listing, n),
        0 <= n,
        forall|version: Version, num_parts: u32, part: u32| !#[trigger]
            is_part(listing, n, version, num_parts, part),
    ensures
        notes_parts(seen, listing, n + 1),
{
    assert forall|version: Version, num_parts: u32, part: u32|
        seen.contains(SeenPart { version, num_parts, part }) <==> #[trigger] is_part_before(
            listing,
            n + 1,
            version,
            num_parts,
            part,
        ) by {
        assert(is_part_before(listing, n, version, num_parts, part) <==> is_part_before(
            listing,
            n + 1,
            version,
            num_parts,
            part,
        ));
    }
}

/// Notes that entry `i` is a part, and says how many parts of its checkpoint have been seen.
fn note_part(
    seen: &mut Vec<SeenPart>,
    noted: SeenPart,
    Ghost(listing): Ghost<Seq<ListedPath>>,
    Ghost(i): Ghost<int>,
) -> (count: usize)
    requires
        0 <= i < listing.len(),
        is_part(listing, i, noted.version, noted.num_parts, noted.part),
        notes_parts(old(seen)@, listing, i),
    ensures
        notes_parts(final(seen)@, listing, i + 1),
        count == parts_seen(listing, i + 1, noted.version, noted.num_parts).len(),
{
    let mut parts: Vec<u32> = Vec::new();
    let mut known: bool = false;
    let mut k: usize = 0;
    while k < seen.len()
        invariant
            k <= seen.len(),
            seen@ == old(seen)@,
            seen@.no_duplicates(),
            known <==> seen@.take(k as int).contains(noted),
            parts@.no_duplicates(),
            forall|part: u32| #[trigger]
                parts@.contains(part) <==> seen@.take(k as int).contains(
                    SeenPart { version: noted.version, num_parts: noted.num_parts, part },
                ),
        decreases seen.len() - k,
    {
        let entry: SeenPart = seen[k];
        proof {
            assert(seen@.take(k + 1) =~= seen@.take(k as int).push(entry));
            assert forall|other: SeenPart| #[trigger]
                seen@.take(k + 1).contains(other) <==> (seen@.take(k as int).contains(other)
                    || other == entry) by {
                if seen@.take(k as int).contains(other) {
                    let m = seen@.take(k as int).index_of(other);
                    assert(seen@.take(k + 1)[m] == other);
                }
                assert(seen@.take(k + 1)[k as int] == entry);
            }
            assert(!seen@.take(k as int).contains(entry));
        }
        if entry.version == noted.version && entry.num_parts == noted.num_parts {
            let ghost before = parts@;
            parts.push(entry.part);
            proof {
                assert(entry == SeenPart {
                    version: noted.version,
                    num_parts: noted.num_parts,
                    part: entry.part,
                });
                assert(!before.contains(entry.part));
                assert forall|part: u32| #[trigger]
                    parts@.contains(part) <==> (before.contains(part) || part == entry.part) by {
                    if before.contains(part) {
                        assert(parts@[before.index_of(part)] == part);
                    }
                    assert(parts@[before.len() as int] == entry.part);
                }
            }
            if entry.part == noted.part {
                known = true;
            }
        }
        k += 1;
    }
    let ghost before = parts@;
    let ghost earlier = seen@;
    assert(seen@.take(k as int) =~= seen@);
    if !known {
        seen.push(noted);
        parts.push(noted.part);
    }
    proof {
        let all = parts_seen(listing, i + 1, noted.version, noted.num_parts);
        assert(noted == SeenPart {
            version: noted.version,
            num_parts: noted.num_parts,
            part: noted.part,
        });
        assert(!known ==> !before.contains(noted.part));
        assert forall|other: SeenPart| #[trigger]
            seen@.contains(other) <==> (earlier.contains(other) || other == noted) by {
            if earlier.contains(other) {
                assert(seen@[earlier.index_of(other)] == other);
            }
            if !known {
                assert(seen@[earlier.len() as int] == noted);
            }
        }
        assert forall|version: Version, num_parts: u32, part: u32|
            seen@.contains(SeenPart { version, num_parts, part }) <==> #[trigger] is_part_before(
                listing,
                i + 1,
                version,
                num_parts,
                part,
            ) by {
            let entry = SeenPart { version, num_parts, part };
            assert(earlier.contains(entry) <==> is_part_before(
                listing,
                i,
                version,
                num_parts,
                part,
            ));
            if is_part_before(listing, i, version, num_parts, part) {
                let j = choose|j: int|
                    0 <= j < i && #[trigger] is_part(listing, j, version, num_parts, part);
                assert(is_part(listing, j, version, num_parts, part));
            }
            if is_part_before(listing, i + 1, version, num_parts, part) {
                let j = choose|j: int|
                    0 <= j < i + 1 && #[trigger] is_part(listing, j, version, num_parts, part);
                if j == i {
                    assert(entry == noted);
                }
            }
        }
        assert forall|part: u32| parts@.contains(part) <==> #[trigger] all.contains(part) by {
            if before.contains(part) {
                assert(parts@[before.index_of(part)] == part);
            }
            if !known {
                assert(parts@[before.len() as int] == noted.part);
            }
            let entry = SeenPart { version: noted.version, num_parts: noted.num_parts, part };
            assert(seen@.contains(entry) <==> all.contains(part));
            assert(before.contains(part) <==> earlier.contains(entry));
        }
        assert(parts@.to_set() =~= all);
        parts@.unique_seq_to_set();
    }
    parts.len()
}

/// The earliest version that can be fully reconstructed and replayed forward from: commit 0 where
/// the log has it, else the version of the earliest complete checkpoint that the commits of the log
/// reach back to.
///
/// `listing` is the listing of the log directory, in the order of the file names. The commits in it
/// are taken to follow one another without gaps.
pub fn get_earliest_recreatable_commit(
    listing: &[ListedPath],
    log_root: &str,
    earliest_ratified_commit_version: Option<Version>,
) -> (r: DeltaResult<Version>)
    ensures
        recreatable_outcome(listing@, log_root@, earliest_ratified_commit_version, r),
{
    let mut last_complete_checkpoint: Option<Version> = None;
    let mut seen_parts: Vec<SeenPart> = Vec::new();
    let mut earliest_commit_version: Option<Version> = None;
    let mut i: usize = 0;
    while i < listing.len()
        invariant
            i <= listing.len(),
            last_complete_checkpoint == last_checkpoint(listing@, i as int),
            earliest_commit_version == first_commit(listing@, i as int),
            notes_parts(seen_parts@, listing@, i as int),
            forall|j: int| 0 <= j < i ==> !#[trigger] ends_recreatable_scan(listing@, j),
        decreases listing.len() - i,
    {
        let path: &ParsedLogPath = match &listing[i] {
            Err(text) => {
                let error: Error = Error::Engine(text.clone());
                assert(ends_recreatable_scan(listing@, i as int));
                return Err(error);
            },
            Ok(path) => path,
        };
        proof {
            if !(counts(*path) && path.file_type is MultiPartCheckpoint) {
                lemma_notes_parts_skip(seen_parts@, listing@, i as int);
            }
        }
        if should_process_log_file(path) {
            match path.file_type {
                LogPathFileType::Commit => {
                    if path.version == 0 {
                        assert(ends_recreatable_scan(listing@, i as int));
                        return Ok(0);
                    }
                    let earliest_version: Version = match earliest_commit_version {
                        Some(version) => version,
                        None => path.version,
                    };
                    earliest_commit_version = Some(earliest_version);
                    if let Some(checkpoint_version) = last_complete_checkpoint {
                        if checkpoint_version >= earliest_version {
                            assert(ends_recreatable_scan(listing@, i as int));
                            return Ok(checkpoint_version);
                        }
                    }
                },
                LogPathFileType::ClassicCheckpoint | LogPathFileType::UuidCheckpoint => {
                    last_complete_checkpoint = Some(path.version);
                },
                LogPathFileType::MultiPartCheckpoint { part_num, num_parts } => {
                    let noted: SeenPart = SeenPart {
                        version: path.version,
                        num_parts,
                        part: part_num,
                    };
                    let count: usize = note_part(
                        &mut seen_parts,
                        noted,
                        Ghost(listing@),
                        Ghost(i as int),
                    );
                    if count == num_parts as usize {
                        last_complete_checkpoint = Some(path.version);
                    }
                },
                _ => {},
            }
        }
        i += 1;
    }
    if earliest_commit_version.is_some() {
        return Err(
            Error::LogHistory(
                Box::new(LogHistoryError::NoRecreatableCommit { log_root: log_root.to_owned() }),
            ),
        );
    }
    Err(no_commits_error(log_root, earliest_ratified_commit_version))
}

/// What the query for the earliest version answers.
pub open spec fn earliest_outcome(
    listing: Seq<ListedPath>,
    log_root: Seq<char>,
    earliest_ratified_commit_version: Option<Version>,
    commit_type: HistoryCommitType,
    r: DeltaResult<Version>,
) -> bool {
    match commit_type {
        HistoryCommitType::Published => published_outcome(
            listing,
            log_root,
            earliest_ratified_commit_version,
            r,
        ),
        HistoryCommitType::Recreatable => recreatable_outcome(
            listing,
            log_root,
            earliest_ratified_commit_version,
            r,
        ),
    }
}

/// The earliest table version in the log directory `log_root`, of which `listing` is the listing in
/// the order of the file names: the lowest commit, or the lowest version that can be reconstructed.
///
/// `earliest_ratified_commit_version` is, for a table managed by a catalog, the earliest version
/// that the catalog has ratified.
pub fn get_earliest_commit(
    listing: &[ListedPath],
    log_root: &str,
    earliest_ratified_commit_version: Option<Version>,
    commit_type: HistoryCommitType,
) -> (r: DeltaResult<Version>)
    ensures
        earliest_outcome(listing@, log_root@, earliest_ratified_commit_version, commit_type, r),
{
    match commit_type {
        HistoryCommitType::Published => get_earliest_published_commit_version(
            listing,
            log_root,
            earliest_ratified_commit_version,
        ),
        HistoryCommitType::Recreatable => get_earliest_recreatable_commit(
            listing,
            log_root,
            earliest_ratified_commit_version,
        ),
    }
}

} // verus!
