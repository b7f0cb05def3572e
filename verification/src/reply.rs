//! What the database's refusals mean.

use vstd::prelude::*;

use crate::error::StoreError;
use crate::job::Job;
use crate::text::{same_text, text_of};

verus! {

/// Whether the database refused because a row would be the second one under a unique constraint.
pub open spec fn violates(error: StoreError, constraint: Seq<char>) -> bool {
    &&& error matches StoreError::Database(error)
    &&& text_of(error.code) == Some("23505"@)
    &&& text_of(error.constraint) == Some(constraint)
}

/// Whether the database refused because a row would be the second one under a unique constraint.
pub fn is_unique_violation(error: &StoreError, constraint: &str) -> (violation: bool)
    ensures
        violation == violates(*error, constraint@),
{
    match error {
        StoreError::Database(error) => {
            let code_matches: bool = match &error.code {
                Some(code) => same_text(code.as_str(), "23505"),
                None => false,
            };
            let constraint_matches: bool = match &error.constraint {
                Some(name) => same_text(name.as_str(), constraint),
                None => false,
            };
            code_matches && constraint_matches
        },
        _ => false,
    }
}

/// What an attempt to claim a job came to, given the store's reply.
pub open spec fn settled_claim(reply: Result<Option<Job>, StoreError>) -> Result<
    Option<Job>,
    StoreError,
> {
    match reply {
        Ok(job) => Ok(job),
        Err(error) => if violates(error, "jobs_queue_running_idx"@) {
            Ok(None)
        } else {
            Err(error)
        },
    }
}

/// What an attempt to claim a job came to. Where another claim took the last free place in the named
/// queue at the same time, no job was claimed; any other refusal stands.
pub fn settle_claim(reply: Result<Option<Job>, StoreError>) -> (claimed: Result<
    Option<Job>,
    StoreError,
>)
    ensures
        claimed == match reply {
            Ok(job) => Ok(job),
            Err(error) => if violates(error, "jobs_queue_running_idx"@) {
                Ok(None)
            } else {
                Err(error)
            },
        },
        claimed == settled_claim(reply),
{
    match reply {
        Ok(job) => Ok(job),
        Err(error) => if is_unique_violation(&error, "jobs_queue_running_idx") {
            Ok(None)
        } else {
            Err(error)
        },
    }
}

} // verus!
