use vstd::prelude::*;
use crate::app_error::{resource_not_found, AppError, AppErrorView};

verus! {

/// What the store reported, as far as the engine tells failures apart.
#[derive(Debug, Clone, Copy, PartialEq, Eq, Structural)]
pub enum StoreFailure {
    /// A query that must give a row gave none.
    RowNotFound,
    /// A constraint of the schema refused the row.
    ConstraintViolation,
    /// Anything else, loss of the connection included.
    Other,
}

/// What to do after an insert of an applicant failed.
#[derive(Debug, Clone, Copy, PartialEq, Eq, Structural)]
pub enum InsertRecovery {
    /// The key, or the fresh referral code, is taken: read the applicant
    /// with the key instead.
    ReadExisting,
    /// Give the failure to the caller.
    Fail,
}

/// The error that a failure of the store becomes: a missing row is reported
/// as not found, everything else as a failure of the store with the words
/// that the store gave.
pub fn store_error(failure: StoreFailure, description: String) -> (error: AppError)
    ensures
        error@ == match failure {
            StoreFailure::RowNotFound => resource_not_found(),
            _ => AppErrorView::Database(description@),
        },
{
    match failure {
        StoreFailure::RowNotFound => AppError::not_found(),
        _ => AppError::Database(description),
    }
}

/// How a failed insert of an applicant goes on. A refusal by a constraint is
/// the one expected failure: it is taken for "exists already" and answered
/// by reading, whichever constraint it was.
pub fn insert_recovery(failure: StoreFailure) -> (recovery: InsertRecovery)
    ensures
        recovery == if failure == StoreFailure::ConstraintViolation {
            InsertRecovery::ReadExisting
        } else {
            InsertRecovery::Fail
        },
{
    match failure {
        StoreFailure::ConstraintViolation => InsertRecovery::ReadExisting,
        _ => InsertRecovery::Fail,
    }
}

} // verus!
