//! How a failure of the store is reported.

use vstd::prelude::*;
use crate::error::{DatabaseError, DatabaseErrorView};

verus! {

/// Where in its dealings with the store an operation failed.
#[derive(Clone, Copy, Debug, PartialEq, Eq, Structural)]
pub enum Stage {
    /// Opening the environment that holds the tables.
    OpenEnvironment,
    /// Creating a table in the environment.
    CreateTable,
    /// Opening a table that the environment should hold.
    OpenTable,
    /// Beginning a transaction.
    Begin,
    /// Reading from a table.
    Read,
    /// Writing to a table.
    Write,
    /// Committing a transaction.
    Commit,
}

/// The failure that reports `detail` from `stage`: the environment that
/// cannot be opened is a `ConnectionError`, a failed read or a table that
/// cannot be opened a `QueryError`, and everything else an
/// `OperationFailed`.
pub open spec fn failure_of(stage: Stage, detail: Seq<char>) -> DatabaseErrorView {
    match stage {
        Stage::OpenEnvironment => DatabaseErrorView::ConnectionError(detail),
        Stage::OpenTable => DatabaseErrorView::QueryError(detail),
        Stage::Read => DatabaseErrorView::QueryError(detail),
        Stage::CreateTable => DatabaseErrorView::OperationFailed(detail),
        Stage::Begin => DatabaseErrorView::OperationFailed(detail),
        Stage::Write => DatabaseErrorView::OperationFailed(detail),
        Stage::Commit => DatabaseErrorView::OperationFailed(detail),
    }
}

/// The failure that reports `detail` from `stage`.
pub fn failure(stage: Stage, detail: String) -> (error: DatabaseError)
    ensures
        error@ == failure_of(stage, detail@),
{
    match stage {
        Stage::OpenEnvironment => DatabaseError::ConnectionError(detail),
        Stage::OpenTable => DatabaseError::QueryError(detail),
        Stage::Read => DatabaseError::QueryError(detail),
        Stage::CreateTable => DatabaseError::OperationFailed(detail),
        Stage::Begin => DatabaseError::OperationFailed(detail),
        Stage::Write => DatabaseError::OperationFailed(detail),
        Stage::Commit => DatabaseError::OperationFailed(detail),
    }
}

/// How providing one table ends: a table that is there, created or
/// opened, is fine, and one that was to be opened and is not there is
/// `NotFound`.
pub fn table_provided(found: bool) -> (r: Result<(), DatabaseError>)
    ensures
        match r {
            Ok(()) => found,
            Err(error) => !found && error@ == DatabaseErrorView::NotFound,
        },
{
    if found {
        Ok(())
    } else {
        Err(DatabaseError::NotFound)
    }
}

} // verus!
