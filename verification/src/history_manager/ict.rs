//! Search over in-commit timestamps (ICT).
//!
//! In-commit timestamps increase from commit to commit, so a binary search finds a commit after
//! reading few of them. Reading one takes I/O: an [`IctSearch`] says which commit to read next and
//! takes what came back.

use vstd::prelude::*;

use super::error::{LogHistoryError, NearestTimestamp};
use super::search::Bound;
use super::{CommitAt, ParsedLogPath, Timestamp};
use crate::error::Error;

verus! {

/// What reading the in-commit timestamp of a commit gave: the timestamp, or the text of the
/// engine's failure.
pub type IctRead = Result<Timestamp, String>;

/// Where a binary search stands.
#[derive(Debug, Clone, Copy, PartialEq, Eq, Structural)]
pub enum IctPhase {
    /// The commit sought lies at or next to the positions from `lo` up to `hi`.
    Probing {
        /// The first position still open.
        lo: usize,
        /// The position after the last one still open.
        hi: usize,
    },
    /// The commit sought is the one at `index`; its timestamp is still to be read.
    Located {
        /// The position of the commit.
        index: usize,
    },
    /// Nothing lies on the asked side; the timestamp at `index` is still to be read as a hint.
    OutOfRange {
        /// The position of the commit next to the timestamp.
        index: usize,
    },
}

/// A binary search for a commit by its in-commit timestamp, between two reads.
#[derive(Debug, Clone, Copy, PartialEq, Eq, Structural)]
pub struct IctSearch {
    /// The timestamp that is asked for.
    pub timestamp: Timestamp,
    /// The side on which a commit is sought.
    pub bound: Bound,
    /// How many commits are searched.
    pub len: usize,
    /// Where the search stands.
    pub phase: IctPhase,
}

/// What a search does after a read.
#[derive(Debug)]
pub enum IctStep {
    /// It goes on.
    Continue(IctSearch),
    /// It is over.
    Done(Result<CommitAt, LogHistoryError>),
}

/// The phase that follows when the open positions are those from `lo` up to `hi`: more probing
/// while there are any, else the commit on the asked side of the gap before `lo`.
pub open spec fn narrowed(lo: int, hi: int, len: int, bound: Bound) -> IctPhase {
    if lo < hi {
        IctPhase::Probing { lo: lo as usize, hi: hi as usize }
    } else {
        match bound {
            Bound::LeastUpper => if lo < len {
                IctPhase::Located { index: lo as usize }
            } else {
                IctPhase::OutOfRange { index: (len - 1) as usize }
            },
            Bound::GreatestLower => if lo > 0 {
                IctPhase::Located { index: (lo - 1) as usize }
            } else {
                IctPhase::OutOfRange { index: 0 }
            },
        }
    }
}

impl IctSearch {
    /// The positions that the search speaks of are positions of commits.
    pub open spec fn wf(self) -> bool {
        match self.phase {
            IctPhase::Probing { lo, hi } => lo < hi <= self.len,
            IctPhase::Located { index } => index < self.len,
            IctPhase::OutOfRange { index } => index < self.len,
        }
    }

    /// The commit whose timestamp the search reads next.
    pub open spec fn reads(self) -> int {
        match self.phase {
            IctPhase::Probing { lo, hi } => lo + (hi - lo) / 2,
            IctPhase::Located { index } => index as int,
            IctPhase::OutOfRange { index } => index as int,
        }
    }

    /// How many reads may still come.
    pub open spec fn fuel(self) -> nat {
        match self.phase {
            IctPhase::Probing { lo, hi } => (1 + hi - lo) as nat,
            IctPhase::Located { index } => 1,
            IctPhase::OutOfRange { index } => 1,
        }
    }

    /// The search after the timestamp `key` was read in the probing phase.
    pub open spec fn probed(self, key: Timestamp) -> IctSearch {
        let mid = self.reads();
        IctSearch {
            phase: if key == self.timestamp {
                IctPhase::Located { index: mid as usize }
            } else if key < self.timestamp {
                narrowed(mid + 1, self.phase->hi as int, self.len as int, self.bound)
            } else {
                narrowed(self.phase->lo as int, mid, self.len as int, self.bound)
            },
            ..self
        }
    }

    /// What the search does when `read` came back for the commit that it reads next.
    pub open spec fn stepped(
        self,
        commits: Seq<ParsedLogPath>,
        read: IctRead,
        step: IctStep,
    ) -> bool {
        match (self.phase, read) {
            (IctPhase::OutOfRange { index }, _) => step == IctStep::Done(
                Err(
                    LogHistoryError::TimestampOutOfRange {
                        timestamp: self.timestamp,
                        bound: self.bound,
                        nearest_timestamp: match read {
                            Ok(key) => NearestTimestamp::boundary(self.bound, key),
                            Err(_) => NearestTimestamp::Unknown,
                        },
                    },
                ),
            ),
            (_, Err(text)) => step matches IctStep::Done(Err(error)) && error.is_internal(
                "failed to read in-commit timestamp"@,
                Some(Error::Engine(text)),
            ),
            (IctPhase::Probing { lo, hi }, Ok(key)) => step == IctStep::Continue(self.probed(key)),
            (IctPhase::Located { index }, Ok(key)) => step == IctStep::Done(
                Ok(CommitAt { version: commits[index as int].version, timestamp: key }),
            ),
        }
    }

    /// Starts a search over `len` commits, or answers at once when there are none.
    pub fn start(len: usize, timestamp: Timestamp, bound: Bound) -> (r: Result<
        IctSearch,
        LogHistoryError,
    >)
        ensures
            len > 0 ==> r == Ok::<IctSearch, LogHistoryError>(
                IctSearch { timestamp, bound, len, phase: IctPhase::Probing { lo: 0, hi: len } },
            ),
            len == 0 ==> r == Err::<IctSearch, LogHistoryError>(
                LogHistoryError::TimestampOutOfRange {
                    timestamp,
                    bound,
                    nearest_timestamp: NearestTimestamp::Unknown,
                },
            ),
    {
        if len == 0 {
            return Err(LogHistoryError::out_of_range(timestamp, bound, NearestTimestamp::Unknown));
        }
        Ok(IctSearch { timestamp, bound, len, phase: IctPhase::Probing { lo: 0, hi: len } })
    }

    /// The commit whose timestamp is to be read next.
    pub fn next_read(&self) -> (index: usize)
        requires
            self.wf(),
        ensures
            index == self.reads(),
            index < self.len,
    {
        match self.phase {
            IctPhase::Probing { lo, hi } => lo + (hi - lo) / 2,
            IctPhase::Located { index } => index,
            IctPhase::OutOfRange { index } => index,
        }
    }

    /// Takes what was read for the commit at [`next_read`](Self::next_read).
    pub fn supply(self, commits: &[ParsedLogPath], read: IctRead) -> (step: IctStep)
        requires
            self.wf(),
            self.len == commits@.len(),
        ensures
            self.stepped(commits@, read, step),
            step matches IctStep::Continue(next) ==> next.wf() && next.len == self.len
                && next.fuel() < self.fuel(),
    {
        match self.phase {
            IctPhase::OutOfRange { index } => {
                let nearest: NearestTimestamp = match read {
                    Ok(key) => NearestTimestamp::from_boundary(self.bound, key),
                    Err(_) => NearestTimestamp::Unknown,
                };
                IctStep::Done(
                    Err(LogHistoryError::out_of_range(self.timestamp, self.bound, nearest)),
                )
            },
            IctPhase::Located { index } => match read {
                Ok(key) => IctStep::Done(Ok(CommitAt::new(commits[index].version, key))),
                Err(text) => IctStep::Done(
                    Err(
                        LogHistoryError::internal(
                            "failed to read in-commit timestamp",
                            Error::Engine(text),
                        ),
                    ),
                ),
            },
            IctPhase::Probing { lo, hi } => {
                let mid: usize = lo + (hi - lo) / 2;
                match read {
                    Err(text) => IctStep::Done(
                        Err(
                            LogHistoryError::internal(
                                "failed to read in-commit timestamp",
                                Error::Engine(text),
                            ),
                        ),
                    ),
                    Ok(key) => {
                        let phase: IctPhase = if key == self.timestamp {
                            IctPhase::Located { index: mid }
                        } else if key < self.timestamp {
                            self.narrow(mid + 1, hi)
                        } else {
                            self.narrow(lo, mid)
                        };
                        IctStep::Continue(
                            IctSearch {
                                timestamp: self.timestamp,
                                bound: self.bound,
                                len: self.len,
                                phase,
                            },
                        )
                    },
                }
            },
        }
    }

    fn narrow(&self, lo: usize, hi: usize) -> (phase: IctPhase)
        requires
            lo <= hi <= self.len,
            0 < self.len,
        ensures
            phase == narrowed(lo as int, hi as int, self.len as int, self.bound),
    {
        if lo < hi {
            return IctPhase::Probing { lo, hi };
        }
        match self.bound {
            Bound::LeastUpper => if lo < self.len {
                IctPhase::Located { index: lo }
            } else {
                IctPhase::OutOfRange { index: self.len - 1 }
            },
            Bound::GreatestLower => if lo > 0 {
                IctPhase::Located { index: lo - 1 }
            } else {
                IctPhase::OutOfRange { index: 0 }
            },
        }
    }
}

/// What a search that stands at `search` answers in the end, when reading commit `i` gives
/// `reads[i]`.
pub open spec fn ict_run(
    search: IctSearch,
    commits: Seq<ParsedLogPath>,
    reads: Seq<IctRead>,
    r: Result<CommitAt, LogHistoryError>,
) -> bool
    decreases search.fuel(),
        when search.wf()
{
    let read = reads[search.reads()];
    if search.phase is Probing && read is Ok {
        ict_run(search.probed(read->Ok_0), commits, reads, r)
    } else {
        search.stepped(commits, read, IctStep::Done(r))
    }
}

/// What a search over in-commit timestamps answers, when reading commit `i` gives `reads[i]`.
pub open spec fn ict_outcome(
    commits: Seq<ParsedLogPath>,
    reads: Seq<IctRead>,
    timestamp: Timestamp,
    bound: Bound,
    r: Result<CommitAt, LogHistoryError>,
) -> bool {
    if commits.len() == 0 {
        r == Err::<CommitAt, LogHistoryError>(
            LogHistoryError::TimestampOutOfRange {
                timestamp,
                bound,
                nearest_timestamp: NearestTimestamp::Unknown,
            },
        )
    } else {
        let len = commits.len() as usize;
        ict_run(
            IctSearch { timestamp, bound, len, phase: IctPhase::Probing { lo: 0, hi: len } },
            commits,
            reads,
            r,
        )
    }
}

/// Every in-commit timestamp can be read, and each is later than the one before it.
pub open spec fn icts_increase(reads: Seq<IctRead>) -> bool {
    &&& forall|i: int| 0 <= i < reads.len() ==> (#[trigger] reads[i]) is Ok
    &&& forall|i: int, j: int|
        #![trigger reads[i], reads[j]]
        0 <= i < j < reads.len() ==> reads[i]->Ok_0 < reads[j]->Ok_0
}

/// Whether the commit at `i` is the one that `bound` asks for: the last one at or before
/// `timestamp`, or the first one at or after it.
pub open spec fn is_ict_bound(
    reads: Seq<IctRead>,
    timestamp: Timestamp,
    bound: Bound,
    i: int,
) -> bool {
    &&& 0 <= i < reads.len()
    &&& match bound {
        Bound::GreatestLower => {
            &&& reads[i]->Ok_0 <= timestamp
            &&& forall|j: int| i < j < reads.len() ==> (#[trigger] reads[j])->Ok_0 > timestamp
        },
        Bound::LeastUpper => {
            &&& reads[i]->Ok_0 >= timestamp
            &&& forall|j: int| 0 <= j < i ==> (#[trigger] reads[j])->Ok_0 < timestamp
        },
    }
}

/// What a search over increasing in-commit timestamps amounts to: the commit on the asked side of
/// the timestamp, or an error with the timestamp next to it when there is none.
pub open spec fn ict_bound_outcome(
    commits: Seq<ParsedLogPath>,
    reads: Seq<IctRead>,
    timestamp: Timestamp,
    bound: Bound,
    r: Result<CommitAt, LogHistoryError>,
) -> bool {
    match r {
        Ok(commit) => exists|i: int| #[trigger]
            is_ict_bound(reads, timestamp, bound, i) && commit.version == commits[i].version
                && commit.timestamp == reads[i]->Ok_0,
        Err(error) => {
            &&& forall|i: int| !#[trigger] is_ict_bound(reads, timestamp, bound, i)
            &&& error == (LogHistoryError::TimestampOutOfRange {
                timestamp,
                bound,
                nearest_timestamp: if reads.len() == 0 {
                    NearestTimestamp::Unknown
                } else {
                    NearestTimestamp::boundary(
                        bound,
                        reads[bound.boundary_index(reads.len())]->Ok_0,
                    )
                },
            })
        },
    }
}

/// A search for the commit at or next to a timestamp, once the positions outside `lo..hi` are known
/// to lie on their side of it, ends at that commit.
proof fn lemma_ict_run(
    search: IctSearch,
    commits: Seq<ParsedLogPath>,
    reads: Seq<IctRead>,
    r: Result<CommitAt, LogHistoryError>,
)
    requires
        search.wf(),
        search.len == commits.len() == reads.len(),
        icts_increase(reads),
        ict_run(search, commits, reads, r),
        match search.phase {
            IctPhase::Probing { lo, hi } => {
                &&& forall|i: int|
                    0 <= i < lo ==> (#[trigger] reads[i])->Ok_0 < search.timestamp
                &&& forall|i: int|
                    hi <= i < reads.len() ==> (#[trigger] reads[i])->Ok_0 > search.timestamp
            },
            IctPhase::Located { index } => is_ict_bound(
                reads,
                search.timestamp,
                search.bound,
                index as int,
            ),
            IctPhase::OutOfRange { index } => {
                &&& index == search.bound.boundary_index(reads.len())
                &&& forall|i: int| !#[trigger]
                    is_ict_bound(reads, search.timestamp, search.bound, i)
            },
        },
    ensures
        ict_bound_outcome(commits, reads, search.timestamp, search.bound, r),
    decreases search.fuel(),
{
    let mid = search.reads();
    let read = reads[mid];
    if search.phase is Probing {
        lemma_ict_run(search.probed(read->Ok_0), commits, reads, r);
    }
}

/// Over in-commit timestamps that increase, the binary search answers with the commit on the asked
/// side of the timestamp.
pub proof fn lemma_ict_search_finds_bound(
    commits: Seq<ParsedLogPath>,
    reads: Seq<IctRead>,
    timestamp: Timestamp,
    bound: Bound,
    r: Result<CommitAt, LogHistoryError>,
)
    requires
        commits.len() == reads.len() <= usize::MAX,
        icts_increase(reads),
        ict_outcome(commits, reads, timestamp, bound, r),
    ensures
        ict_bound_outcome(commits, reads, timestamp, bound, r),
{
    if commits.len() > 0 {
        let len = commits.len() as usize;
        lemma_ict_run(
            IctSearch { timestamp, bound, len, phase: IctPhase::Probing { lo: 0, hi: len } },
            commits,
            reads,
            r,
        );
    }
}

/// Finds a commit by in-commit timestamp, when reading commit `i` gives `reads[i]`.
pub fn binary_search_ict_timestamps(
    commits: &[ParsedLogPath],
    timestamp: Timestamp,
    bound: Bound,
    reads: &[IctRead],
) -> (r: Result<CommitAt, LogHistoryError>)
    requires
        commits@.len() == reads@.len(),
    ensures
        ict_outcome(commits@, reads@, timestamp, bound, r),
        icts_increase(reads@) ==> ict_bound_outcome(commits@, reads@, timestamp, bound, r),
{
    let mut search: IctSearch = match IctSearch::start(commits.len(), timestamp, bound) {
        Ok(search) => search,
        Err(error) => {
            return Err(error);
        },
    };
    let ghost started = search;
    loop
        invariant
            search.wf(),
            search.len == commits@.len(),
            commits@.len() == reads@.len(),
            forall|r: Result<CommitAt, LogHistoryError>| #[trigger]
                ict_run(search, commits@, reads@, r) ==> ict_run(started, commits@, reads@, r),
            started == (IctSearch {
                timestamp,
                bound,
                len: commits@.len() as usize,
                phase: IctPhase::Probing { lo: 0, hi: commits@.len() as usize },
            }),
            commits@.len() > 0,
        decreases search.fuel(),
    {
        let index: usize = search.next_read();
        let read: IctRead = match &reads[index] {
            Ok(key) => Ok(*key),
            Err(text) => Err(text.clone()),
        };
        assert(read == reads@[search.reads()]);
        match search.supply(commits, read) {
            IctStep::Continue(next) => {
                proof {
                    assert forall|r: Result<CommitAt, LogHistoryError>| #[trigger]
                        ict_run(next, commits@, reads@, r) implies ict_run(
                        started,
                        commits@,
                        reads@,
                        r,
                    ) by {
                        assert(ict_run(search, commits@, reads@, r));
                    }
                }
                search = next;
            },
            IctStep::Done(r) => {
                proof {
                    assert(ict_run(search, commits@, reads@, r));
                    if icts_increase(reads@) {
                        lemma_ict_search_finds_bound(commits@, reads@, timestamp, bound, r);
                    }
                }
                return r;
            },
        }
    }
}

} // verus!
