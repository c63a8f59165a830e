//! Which version of a log is the earliest, in terms of the files that are listed.

use vstd::prelude::*;

use super::earliest::{
    anchored_version, anchors, completes_checkpoint, earliest_outcome, ends_published_scan,
    ends_recreatable_scan, first_commit, is_commit, is_part_before, last_checkpoint, parts_seen,
    ListedPath,
};
use super::error::LogHistoryError;
use super::laws::{lemma_first_commit, lemma_last_checkpoint_completed};
use super::{HistoryCommitType, LogPathFileType};
use crate::error::{DeltaResult, Error};
use crate::Version;

verus! {

/// Whether a log directory could be listed from its lowest version up.
pub open spec fn listed_in_order(listing: Seq<ListedPath>) -> bool {
    &&& forall|i: int| 0 <= i < listing.len() ==> (#[trigger] listing[i]) is Ok
    &&& forall|i: int, j: int|
        #![trigger listing[i], listing[j]]
        0 <= i <= j < listing.len() ==> listing[i]->Ok_0.version <= listing[j]->Ok_0.version
}

/// Whether an entry is a commit file.
pub open spec fn lists_commit(listing: Seq<ListedPath>, i: int) -> bool {
    0 <= i < listing.len() && listing[i]->Ok_0.file_type is Commit
}

/// Whether an entry has content.
pub open spec fn has_content(listing: Seq<ListedPath>, i: int) -> bool {
    listing[i]->Ok_0.location.size > 0
}

/// Whether an entry is a checkpoint in one file.
pub open spec fn lists_whole_checkpoint(listing: Seq<ListedPath>, i: int) -> bool {
    0 <= i < listing.len() && (listing[i]->Ok_0.file_type is ClassicCheckpoint
        || listing[i]->Ok_0.file_type is UuidCheckpoint)
}

/// The earliest published version is the least version of a commit file in the log; there is none
/// only where there is no commit file. Other files make no difference.
pub proof fn law_earliest_published_version_is_the_least(
    listing: Seq<ListedPath>,
    log_root: Seq<char>,
    ratified: Option<Version>,
    r: DeltaResult<Version>,
)
    requires
        listed_in_order(listing),
        earliest_outcome(listing, log_root, ratified, HistoryCommitType::Published, r),
    ensures
        r is Ok <==> exists|i: int| #[trigger] lists_commit(listing, i),
        r matches Ok(version) ==> (exists|i: int| #[trigger]
            lists_commit(listing, i) && listing[i]->Ok_0.version == version) && forall|i: int|
            #[trigger] lists_commit(listing, i) ==> version <= listing[i]->Ok_0.version,
{
    assert forall|i: int| 0 <= i < listing.len() implies #[trigger] ends_published_scan(listing, i)
        == lists_commit(listing, i) by {
        let _ = listing[i];
    }
    if exists|j: int| 0 <= j < listing.len() && #[trigger] ends_published_scan(listing, j) {
        let j = choose|j: int| 0 <= j < listing.len() && #[trigger] ends_published_scan(listing, j);
        assert(lists_commit(listing, j));
        let i = choose|i: int| #[trigger]
            ends_published_scan(listing, i) && 0 <= i < listing.len() && (forall|j: int|
                0 <= j < i ==> !#[trigger] ends_published_scan(listing, j)) && match listing[i] {
                Err(text) => r == Err::<Version, Error>(Error::Engine(text)),
                Ok(path) => r == Ok::<Version, Error>(path.version),
            };
        assert(listing[i] is Ok);
        assert(lists_commit(listing, i));
        assert forall|k: int| #[trigger] lists_commit(listing, k) implies listing[i]->Ok_0.version
            <= listing[k]->Ok_0.version by {
            assert(ends_published_scan(listing, k));
            assert(i <= k);
        }
    } else {
        assert forall|i: int| !#[trigger] lists_commit(listing, i) by {
            if lists_commit(listing, i) {
                assert(ends_published_scan(listing, i));
            }
        }
    }
}

/// While commit 0 is in the log, with content, the table can be reconstructed from the beginning.
pub proof fn law_commit_zero_makes_everything_recreatable(
    listing: Seq<ListedPath>,
    log_root: Seq<char>,
    ratified: Option<Version>,
    r: DeltaResult<Version>,
    i: int,
)
    requires
        listed_in_order(listing),
        earliest_outcome(listing, log_root, ratified, HistoryCommitType::Recreatable, r),
        lists_commit(listing, i),
        has_content(listing, i),
        listing[i]->Ok_0.version == 0,
    ensures
        r == Ok::<Version, Error>(0),
{
    assert(listing[i] is Ok);
    assert(ends_recreatable_scan(listing, i));
    let end = choose|e: int| #[trigger]
        ends_recreatable_scan(listing, e) && 0 <= e < listing.len() && (forall|j: int|
            0 <= j < e ==> !#[trigger] ends_recreatable_scan(listing, j)) && match listing[e] {
            Err(text) => r == Err::<Version, Error>(Error::Engine(text)),
            Ok(_) => r == Ok::<Version, Error>(anchored_version(listing, e)),
        };
    assert(end <= i);
    assert(listing[end] is Ok);
    assert(listing[end]->Ok_0.version <= listing[i]->Ok_0.version);
}

proof fn lemma_last_checkpoint_at_least(listing: Seq<ListedPath>, k: int, n: int)
    requires
        listed_in_order(listing),
        0 <= k < n <= listing.len(),
        completes_checkpoint(listing, k),
    ensures
        last_checkpoint(listing, n) matches Some(version) && version
            >= listing[k]->Ok_0.version,
    decreases n,
{
    let _ = listing[k];
    let _ = listing[n - 1];
    if !completes_checkpoint(listing, n - 1) {
        lemma_last_checkpoint_at_least(listing, k, n - 1);
    }
}

proof fn lemma_first_commit_before(listing: Seq<ListedPath>, c: int, n: int)
    requires
        0 <= c < n,
        is_commit(listing, c),
    ensures
        first_commit(listing, n) is Some,
        forall|f: int|
            0 <= f < n && #[trigger] is_commit(listing, f) && (forall|g: int|
                0 <= g < f ==> !#[trigger] is_commit(listing, g)) ==> first_commit(listing, n)
                == Some(listing[f]->Ok_0.version),
    decreases n,
{
    if c < n - 1 {
        lemma_first_commit_before(listing, c, n - 1);
        assert forall|f: int|
            0 <= f < n && #[trigger] is_commit(listing, f) && (forall|g: int|
                0 <= g < f ==> !#[trigger] is_commit(listing, g)) implies first_commit(listing, n)
            == Some(listing[f]->Ok_0.version) by {
            if f == n - 1 {
                assert(is_commit(listing, c));
            }
        }
    } else if first_commit(listing, n - 1) is Some {
        let first = lemma_first_commit(listing, n - 1);
        lemma_first_commit_before(listing, first, n - 1);
        assert forall|f: int|
            0 <= f < n && #[trigger] is_commit(listing, f) && (forall|g: int|
                0 <= g < f ==> !#[trigger] is_commit(listing, g)) implies first_commit(listing, n)
            == Some(listing[f]->Ok_0.version) by {
            if f == n - 1 {
                assert(is_commit(listing, first));
            }
        }
    } else {
        assert forall|f: int|
            0 <= f < n && #[trigger] is_commit(listing, f) && (forall|g: int|
                0 <= g < f ==> !#[trigger] is_commit(listing, g)) implies first_commit(listing, n)
            == Some(listing[f]->Ok_0.version) by {
            if f < n - 1 {
                lemma_first_commit_before(listing, f, n - 1);
            }
        }
    }
}

proof fn lemma_least_commit(listing: Seq<ListedPath>, c: int) -> (f: int)
    requires
        0 <= c < listing.len(),
        is_commit(listing, c),
    ensures
        0 <= f <= c,
        is_commit(listing, f),
        forall|g: int| 0 <= g < f ==> !#[trigger] is_commit(listing, g),
    decreases c,
{
    if exists|g: int| 0 <= g < c && #[trigger] is_commit(listing, g) {
        let g = choose|g: int| 0 <= g < c && #[trigger] is_commit(listing, g);
        lemma_least_commit(listing, g)
    } else {
        c
    }
}

/// Where a log has a checkpoint in one file that is no older than some commit of it, and a commit
/// after it, there is an earliest recreatable version, and it is no later than that commit.
pub proof fn law_checkpoint_and_later_commit_make_a_version_recreatable(
    listing: Seq<ListedPath>,
    log_root: Seq<char>,
    ratified: Option<Version>,
    r: DeltaResult<Version>,
    c: int,
    k: int,
    j: int,
)
    requires
        listed_in_order(listing),
        earliest_outcome(listing, log_root, ratified, HistoryCommitType::Recreatable, r),
        lists_commit(listing, c),
        has_content(listing, c),
        lists_whole_checkpoint(listing, k),
        has_content(listing, k),
        lists_commit(listing, j),
        has_content(listing, j),
        k < j,
        listing[c]->Ok_0.version <= listing[k]->Ok_0.version,
    ensures
        r matches Ok(version) && version <= listing[j]->Ok_0.version,
{
    assert(listing[c] is Ok);
    assert(listing[k] is Ok);
    assert(listing[j] is Ok);
    assert(is_commit(listing, c));
    assert(is_commit(listing, j));
    assert(completes_checkpoint(listing, k));
    lemma_last_checkpoint_at_least(listing, k, j);
    let f = lemma_least_commit(listing, c);
    assert(listing[f] is Ok);
    assert(f <= j) by {
        if j < f {
            assert(!is_commit(listing, j));
        }
    }
    lemma_first_commit_before(listing, f, j + 1);
    assert(listing[f]->Ok_0.version <= listing[c]->Ok_0.version);
    assert(anchors(listing, j));
    assert(ends_recreatable_scan(listing, j));
    let end = choose|e: int| #[trigger]
        ends_recreatable_scan(listing, e) && 0 <= e < listing.len() && (forall|g: int|
            0 <= g < e ==> !#[trigger] ends_recreatable_scan(listing, g)) && match listing[e] {
            Err(text) => r == Err::<Version, Error>(Error::Engine(text)),
            Ok(_) => r == Ok::<Version, Error>(anchored_version(listing, e)),
        };
    assert(end <= j);
    assert(listing[end] is Ok);
    assert(anchors(listing, end));
    if listing[end]->Ok_0.version != 0 {
        lemma_last_checkpoint_completed(listing, end);
        let at = choose|i: int|
            0 <= i < end && #[trigger] completes_checkpoint(listing, i)
                && listing[i]->Ok_0.version == last_checkpoint(listing, end)->Some_0;
        assert(listing[at]->Ok_0.version <= listing[end]->Ok_0.version);
    }
    assert(listing[end]->Ok_0.version <= listing[j]->Ok_0.version);
}

/// A log without commits that have content has no recreatable version.
pub proof fn law_nothing_is_recreatable_without_commits(
    listing: Seq<ListedPath>,
    log_root: Seq<char>,
    ratified: Option<Version>,
    r: DeltaResult<Version>,
)
    requires
        listed_in_order(listing),
        earliest_outcome(listing, log_root, ratified, HistoryCommitType::Recreatable, r),
        forall|i: int| #[trigger] lists_commit(listing, i) ==> !has_content(listing, i),
    ensures
        r is Err,
{
    assert forall|i: int| 0 <= i < listing.len() implies !#[trigger] ends_recreatable_scan(
        listing,
        i,
    ) by {
        assert(listing[i] is Ok);
        if is_commit(listing, i) {
            assert(lists_commit(listing, i));
        }
    }
}

/// A checkpoint in one file is complete by itself where it has content; a commit completes none.
pub proof fn law_whole_checkpoint_is_complete(listing: Seq<ListedPath>, i: int)
    requires
        listed_in_order(listing),
        0 <= i < listing.len(),
    ensures
        lists_whole_checkpoint(listing, i) ==> (completes_checkpoint(listing, i) <==> has_content(
            listing,
            i,
        )),
        lists_commit(listing, i) ==> !completes_checkpoint(listing, i),
        !has_content(listing, i) ==> !completes_checkpoint(listing, i) && !is_commit(listing, i),
{
    assert(listing[i] is Ok);
}

proof fn lemma_parts_len(n: u32)
    ensures
        Set::new(|part: u32| 1 <= part <= n).finite(),
        Set::new(|part: u32| 1 <= part <= n).len() == n,
    decreases n,
{
    let parts = Set::new(|part: u32| 1 <= part <= n);
    if n == 0 {
        assert(parts =~= Set::<u32>::empty());
    } else {
        let less = (n - 1) as u32;
        lemma_parts_len(less);
        let fewer = Set::new(|part: u32| 1 <= part <= less);
        assert(parts =~= fewer.insert(n));
    }
}

/// A checkpoint in parts that are numbered from one up is complete exactly when each of its parts is
/// listed, with content, up to there.
pub proof fn law_checkpoint_in_parts_needs_them_all(
    listing: Seq<ListedPath>,
    i: int,
    version: Version,
    part_num: u32,
    num_parts: u32,
)
    requires
        0 <= i < listing.len(),
        listing[i] matches Ok(path) && path.location.size > 0 && path.version == version
            && path.file_type == (LogPathFileType::MultiPartCheckpoint { part_num, num_parts }),
        forall|part: u32| #[trigger]
            is_part_before(listing, i + 1, version, num_parts, part) ==> 1 <= part <= num_parts,
    ensures
        completes_checkpoint(listing, i) <==> forall|part: u32|
            1 <= part <= num_parts ==> #[trigger] is_part_before(
                listing,
                i + 1,
                version,
                num_parts,
                part,
            ),
{
    let seen = parts_seen(listing, i + 1, version, num_parts);
    let all = Set::new(|part: u32| 1 <= part <= num_parts);
    lemma_parts_len(num_parts);
    assert forall|part: u32| #[trigger] seen.contains(part) == is_part_before(
        listing,
        i + 1,
        version,
        num_parts,
        part,
    ) by {}
    assert(seen.subset_of(all));
    vstd::set_lib::lemma_len_subset(seen, all);
    if seen.len() == num_parts {
        vstd::set_lib::lemma_subset_equality(seen, all);
        assert forall|part: u32| 1 <= part <= num_parts implies #[trigger] is_part_before(
            listing,
            i + 1,
            version,
            num_parts,
            part,
        ) by {
            assert(all.contains(part));
            assert(seen.contains(part));
        }
    }
    if forall|part: u32|
        1 <= part <= num_parts ==> #[trigger] is_part_before(
            listing,
            i + 1,
            version,
            num_parts,
            part,
        ) {
        assert(seen =~= all);
    }
}

/// A log without any commit file is reported as such, for either kind of version; but as a broken
/// table where a catalog has ratified version 0.
pub proof fn law_log_without_commits_is_reported(
    listing: Seq<ListedPath>,
    log_root: Seq<char>,
    ratified: Option<Version>,
    commit_type: HistoryCommitType,
    r: DeltaResult<Version>,
)
    requires
        listed_in_order(listing),
        earliest_outcome(listing, log_root, ratified, commit_type, r),
        forall|i: int| !#[trigger] lists_commit(listing, i),
    ensures
        ratified == Some(0u64) ==> r matches Err(Error::Generic(_)),
        ratified != Some(0u64) ==> (r matches Err(Error::LogHistory(inner)) && (
        *inner matches LogHistoryError::NoCommitsFound { log_root: root } && root@ == log_root)),
{
    assert forall|i: int| 0 <= i < listing.len() implies !#[trigger] ends_published_scan(listing, i)
        && !ends_recreatable_scan(listing, i) by {
        assert(listing[i] is Ok);
        assert(!lists_commit(listing, i));
    }
    assert forall|i: int| 0 <= i < listing.len() implies !#[trigger] ends_recreatable_scan(
        listing,
        i,
    ) by {
        assert(!ends_published_scan(listing, i));
    }
    if first_commit(listing, listing.len() as int) is Some {
        let first = lemma_first_commit(listing, listing.len() as int);
        assert(lists_commit(listing, first));
    }
}

/// A log with commits from none of which the table can be reconstructed, because it has neither
/// commit 0 nor a checkpoint, is reported as such.
pub proof fn law_log_without_checkpoints_is_reported(
    listing: Seq<ListedPath>,
    log_root: Seq<char>,
    ratified: Option<Version>,
    r: DeltaResult<Version>,
    c: int,
)
    requires
        listed_in_order(listing),
        earliest_outcome(listing, log_root, ratified, HistoryCommitType::Recreatable, r),
        lists_commit(listing, c),
        has_content(listing, c),
        forall|i: int| #[trigger] lists_commit(listing, i) ==> listing[i]->Ok_0.version > 0,
        forall|i: int| 0 <= i < listing.len() ==> !#[trigger] completes_checkpoint(listing, i),
    ensures
        r matches Err(Error::LogHistory(inner)) && (
        *inner matches LogHistoryError::NoRecreatableCommit { log_root: root } && root@ == log_root),
{
    assert forall|i: int| 0 <= i < listing.len() implies !#[trigger] ends_recreatable_scan(
        listing,
        i,
    ) by {
        assert(listing[i] is Ok);
        if is_commit(listing, i) {
            assert(lists_commit(listing, i));
            if last_checkpoint(listing, i) is Some {
                lemma_last_checkpoint_completed(listing, i);
            }
        }
    }
    assert(listing[c] is Ok);
    assert(is_commit(listing, c));
    lemma_first_commit_before(listing, c, listing.len() as int);
}

} // verus!
