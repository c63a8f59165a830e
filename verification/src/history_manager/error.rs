//! The errors of timestamp queries.

use vstd::prelude::*;

use super::search::Bound;
use super::Timestamp;
use crate::error::Error;
use crate::text::{decimal, push_decimal};
use crate::Version;

verus! {

/// The timestamp nearest to one that was out of range, as a hint for another query.
#[derive(Debug, Clone, Copy, PartialEq, Eq, Structural)]
pub enum NearestTimestamp {
    /// There is no commit, or its timestamp could not be read.
    Unknown,
    /// The timestamp of the earliest commit: the query asked for a time before it.
    Earliest(Timestamp),
    /// The timestamp of the latest commit: the query asked for a time after it.
    Latest(Timestamp),
}

impl NearestTimestamp {
    /// The hint for a query that fell out of range on the side of `bound`, next to a commit at
    /// `timestamp`.
    pub open spec fn boundary(bound: Bound, timestamp: Timestamp) -> NearestTimestamp {
        match bound {
            Bound::GreatestLower => NearestTimestamp::Earliest(timestamp),
            Bound::LeastUpper => NearestTimestamp::Latest(timestamp),
        }
    }

    /// The hint for a query that fell out of range on the side of `bound`, next to a commit at
    /// `timestamp`.
    pub fn from_boundary(bound: Bound, timestamp: Timestamp) -> (r: NearestTimestamp)
        ensures
            r == Self::boundary(bound, timestamp),
    {
        match bound {
            Bound::GreatestLower => NearestTimestamp::Earliest(timestamp),
            Bound::LeastUpper => NearestTimestamp::Latest(timestamp),
        }
    }
}

/// Why a timestamp query could not be answered.
#[derive(Debug)]
pub enum LogHistoryError {
    /// No commit lies on the asked side of the timestamp.
    TimestampOutOfRange {
        /// The timestamp that was asked for.
        timestamp: Timestamp,
        /// The side on which a commit was sought.
        bound: Bound,
        /// The nearest timestamp that has a commit.
        nearest_timestamp: NearestTimestamp,
    },
    /// The start of a timestamp range lies after its end.
    InvalidTimestampRange {
        /// The start of the range.
        start_timestamp: Timestamp,
        /// The end of the range.
        end_timestamp: Timestamp,
    },
    /// A timestamp range falls between two commits.
    EmptyTimestampRange {
        /// The start of the range.
        start_timestamp: Timestamp,
        /// The end of the range.
        end_timestamp: Timestamp,
        /// The version right before the range.
        between_version: Version,
    },
    /// The log holds no commit.
    NoCommitsFound {
        /// The log directory.
        log_root: String,
    },
    /// The log holds commits, but no version can be reconstructed from it.
    NoRecreatableCommit {
        /// The log directory.
        log_root: String,
    },
    /// Something that should not happen, or an error from below.
    Internal {
        /// What was being done.
        message: String,
        /// The error from below.
        source: Option<Box<Error>>,
    },
}

impl LogHistoryError {
    /// The error as text.
    pub open spec fn text(self) -> Seq<char>
        decreases self,
    {
        match self {
            LogHistoryError::TimestampOutOfRange { timestamp, bound: _, nearest_timestamp } => {
                "Timestamp "@ + decimal(timestamp as int) + " is out of range"@
                    + match nearest_timestamp {
                    NearestTimestamp::Unknown => ""@,
                    NearestTimestamp::Earliest(earliest) => ": the earliest commit is at "@
                        + decimal(earliest as int),
                    NearestTimestamp::Latest(latest) => ": the latest commit is at "@ + decimal(
                        latest as int,
                    ),
                }
            },
            LogHistoryError::InvalidTimestampRange { start_timestamp, end_timestamp } => {
                "Invalid timestamp range: "@ + decimal(start_timestamp as int) + " is after "@
                    + decimal(end_timestamp as int)
            },
            LogHistoryError::EmptyTimestampRange {
                start_timestamp,
                end_timestamp,
                between_version,
            } => "No commit from "@ + decimal(start_timestamp as int) + " to "@ + decimal(
                end_timestamp as int,
            ) + ": the range falls after version "@ + decimal(between_version as int),
            LogHistoryError::NoCommitsFound { log_root } => "No commits found in "@ + log_root@,
            LogHistoryError::NoRecreatableCommit { log_root } => "No recreatable commit found in "@
                + log_root@,
            LogHistoryError::Internal { message, source } => match source {
                Some(error) => message@ + ": "@ + error.text(),
                None => message@,
            },
        }
    }

    /// The error as text.
    pub fn to_string(&self) -> (r: String)
        ensures
            r@ == self.text(),
        decreases self,
    {
        let mut text: String = String::new();
        match self {
            LogHistoryError::TimestampOutOfRange { timestamp, bound: _, nearest_timestamp } => {
                text.append("Timestamp ");
                push_decimal(&mut text, *timestamp as i128);
                text.append(" is out of range");
                match nearest_timestamp {
                    NearestTimestamp::Unknown => {
                        text.append("");
                    },
                    NearestTimestamp::Earliest(earliest) => {
                        text.append(": the earliest commit is at ");
                        push_decimal(&mut text, *earliest as i128);
                    },
                    NearestTimestamp::Latest(latest) => {
                        text.append(": the latest commit is at ");
                        push_decimal(&mut text, *latest as i128);
                    },
                }
            },
            LogHistoryError::InvalidTimestampRange { start_timestamp, end_timestamp } => {
                text.append("Invalid timestamp range: ");
                push_decimal(&mut text, *start_timestamp as i128);
                text.append(" is after ");
                push_decimal(&mut text, *end_timestamp as i128);
            },
            LogHistoryError::EmptyTimestampRange {
                start_timestamp,
                end_timestamp,
                between_version,
            } => {
                text.append("No commit from ");
                push_decimal(&mut text, *start_timestamp as i128);
                text.append(" to ");
                push_decimal(&mut text, *end_timestamp as i128);
                text.append(": the range falls after version ");
                push_decimal(&mut text, *between_version as i128);
            },
            LogHistoryError::NoCommitsFound { log_root } => {
                text.append("No commits found in ");
                text.append(log_root.as_str());
            },
            LogHistoryError::NoRecreatableCommit { log_root } => {
                text.append("No recreatable commit found in ");
                text.append(log_root.as_str());
            },
            LogHistoryError::Internal { message, source } => {
                text.append(message.as_str());
                match source {
                    Some(error) => {
                        text.append(": ");
                        text.append(error.to_string().as_str());
                    },
                    None => {},
                }
            },
        }
        assert(text@ =~= self.text());
        text
    }

    /// Whether this is the internal error with that message and that error below it.
    pub open spec fn is_internal(self, message: Seq<char>, source: Option<Error>) -> bool {
        &&& self is Internal
        &&& self->message@ == message
        &&& match source {
            Some(error) => self->source == Some(Box::new(error)),
            None => self->source is None,
        }
    }

    /// The internal error for an error from below.
    pub fn internal(message: &str, source: Error) -> (r: LogHistoryError)
        ensures
            r.is_internal(message@, Some(source)),
    {
        LogHistoryError::Internal { message: message.to_owned(), source: Some(Box::new(source)) }
    }

    /// The internal error with a message alone.
    pub fn internal_message(message: &str) -> (r: LogHistoryError)
        ensures
            r.is_internal(message@, None),
    {
        LogHistoryError::Internal { message: message.to_owned(), source: None }
    }

    /// The error for a timestamp with no commit on the asked side.
    pub fn out_of_range(
        timestamp: Timestamp,
        bound: Bound,
        nearest_timestamp: NearestTimestamp,
    ) -> (r: LogHistoryError)
        ensures
            r == (LogHistoryError::TimestampOutOfRange { timestamp, bound, nearest_timestamp }),
    {
        LogHistoryError::TimestampOutOfRange { timestamp, bound, nearest_timestamp }
    }
}

} // verus!
