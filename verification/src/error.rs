//! The failures that a storage operation can report.

use vstd::prelude::*;
use vstd::string::StringExecFns;

verus! {

/// Why a storage operation failed.
#[derive(Debug, PartialEq, Eq)]
pub enum DatabaseError {
    /// The entity that the operation names does not exist.
    NotFound,
    /// The engine could not be opened or reached.
    ConnectionError(String),
    /// A read failed inside the engine.
    QueryError(String),
    /// A stored value could not be decoded.
    SerializationError(String),
    /// A write could not be applied or committed.
    OperationFailed(String),
    /// The caller passed something that no entity can hold.
    InvalidInput(String),
    /// The engine found its own state inconsistent.
    InternalError(String),
}

/// The mathematical value of a [`DatabaseError`].
pub enum DatabaseErrorView {
    NotFound,
    ConnectionError(Seq<char>),
    QueryError(Seq<char>),
    SerializationError(Seq<char>),
    OperationFailed(Seq<char>),
    InvalidInput(Seq<char>),
    InternalError(Seq<char>),
}

impl View for DatabaseError {
    type V = DatabaseErrorView;

    open spec fn view(&self) -> DatabaseErrorView {
        match *self {
            DatabaseError::NotFound => DatabaseErrorView::NotFound,
            DatabaseError::ConnectionError(d) => DatabaseErrorView::ConnectionError(d@),
            DatabaseError::QueryError(d) => DatabaseErrorView::QueryError(d@),
            DatabaseError::SerializationError(d) => DatabaseErrorView::SerializationError(d@),
            DatabaseError::OperationFailed(d) => DatabaseErrorView::OperationFailed(d@),
            DatabaseError::InvalidInput(d) => DatabaseErrorView::InvalidInput(d@),
            DatabaseError::InternalError(d) => DatabaseErrorView::InternalError(d@),
        }
    }
}

impl DatabaseError {
    /// The fixed text that introduces each kind of failure.
    pub open spec fn prefix(self) -> Seq<char> {
        match self {
            DatabaseError::NotFound => "Item not found"@,
            DatabaseError::ConnectionError(_) => "Connection error: "@,
            DatabaseError::QueryError(_) => "Query error: "@,
            DatabaseError::SerializationError(_) => "Serialization error: "@,
            DatabaseError::OperationFailed(_) => "Database operation failed: "@,
            DatabaseError::InvalidInput(_) => "Invalid input: "@,
            DatabaseError::InternalError(_) => "Internal error: "@,
        }
    }

    /// The detail that the failure carries; empty for `NotFound`.
    pub open spec fn detail(self) -> Seq<char> {
        match self {
            DatabaseError::NotFound => Seq::empty(),
            DatabaseError::ConnectionError(d) => d@,
            DatabaseError::QueryError(d) => d@,
            DatabaseError::SerializationError(d) => d@,
            DatabaseError::OperationFailed(d) => d@,
            DatabaseError::InvalidInput(d) => d@,
            DatabaseError::InternalError(d) => d@,
        }
    }

    /// True for the failure that reports a missing entity.
    pub fn is_not_found(&self) -> (r: bool)
        ensures
            r == (*self is NotFound),
    {
        match self {
            DatabaseError::NotFound => true,
            _ => false,
        }
    }

    /// The text shown for the failure: its prefix followed by its detail.
    pub fn message(&self) -> (r: String)
        ensures
            r@ == self.prefix() + self.detail(),
    {
        match self {
            DatabaseError::NotFound => String::from_str("Item not found"),
            DatabaseError::ConnectionError(d) => String::from_str("Connection error: ").concat(
                d.as_str(),
            ),
            DatabaseError::QueryError(d) => String::from_str("Query error: ").concat(d.as_str()),
            DatabaseError::SerializationError(d) => String::from_str(
                "Serialization error: ",
            ).concat(d.as_str()),
            DatabaseError::OperationFailed(d) => String::from_str(
                "Database operation failed: ",
            ).concat(d.as_str()),
            DatabaseError::InvalidInput(d) => String::from_str("Invalid input: ").concat(
                d.as_str(),
            ),
            DatabaseError::InternalError(d) => String::from_str("Internal error: ").concat(
                d.as_str(),
            ),
        }
    }
}

} // verus!
