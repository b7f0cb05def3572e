//! What can go wrong when jobs are stored or enqueued.

use vstd::prelude::*;

use crate::job::ParseJobStatusError;

verus! {

/// A refusal reported by the database: its SQLSTATE code, the constraint it names, and its message.
#[derive(Debug)]
pub struct DatabaseError {
    pub code: Option<String>,
    pub constraint: Option<String>,
    pub message: String,
}

/// An operation on stored jobs that could not be carried out. It left everything as it was.
#[derive(Debug)]
pub enum StoreError {
    /// A job would be allowed less than one attempt.
    InvalidMaxAttempts,
    /// A new job would have the id of another one.
    DuplicateId,
    /// A job would become unfinished under a job key that another unfinished job holds.
    JobKeyHeld,
    /// A job's attempts can no longer be counted.
    AttemptOverflow,
    /// A limit on the number of rows is negative.
    NegativeLimit,
    /// A stored column holds a value that has no meaning.
    ColumnDecode { index: String, source: ParseJobStatusError },
    /// The database's reply does not answer what was asked.
    Protocol(String),
    /// The database refused.
    Database(DatabaseError),
}

/// A job that could not be enqueued.
#[derive(Debug)]
#[non_exhaustive]
pub enum EnqueueError {
    /// The payload cannot be written as JSON.
    Serialize(serde_json::Error),
    /// The job cannot be stored.
    Database(StoreError),
    /// The job key appears more than once in one batch.
    DuplicateJobKey(String),
}

impl From<serde_json::Error> for EnqueueError {
    fn from(error: serde_json::Error) -> (wrapped: Self) {
        EnqueueError::Serialize(error)
    }
}

impl vstd::std_specs::convert::FromSpecImpl<serde_json::Error> for EnqueueError {
    open spec fn obeys_from_spec() -> bool {
        true
    }

    open spec fn from_spec(error: serde_json::Error) -> Self {
        EnqueueError::Serialize(error)
    }
}

impl From<StoreError> for EnqueueError {
    fn from(error: StoreError) -> (wrapped: Self) {
        EnqueueError::Database(error)
    }
}

impl vstd::std_specs::convert::FromSpecImpl<StoreError> for EnqueueError {
    open spec fn obeys_from_spec() -> bool {
        true
    }

    open spec fn from_spec(error: StoreError) -> Self {
        EnqueueError::Database(error)
    }
}

} // verus!
