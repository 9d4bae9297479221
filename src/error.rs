//! Repository error types.
use vstd::prelude::*;

verus! {

/// Standard repository error type; each kind carries a descriptive message.
#[derive(Debug)]
pub enum RepositoryError {
    NotFound(String),
    ConstraintViolation(String),
    ConnectionError(String),
    TransactionError(String),
    QueryError(String),
    InvalidInput(String),
    Internal(String),
}

/// The words that open the description of each kind of error.
pub open spec fn error_prefix(e: RepositoryError) -> Seq<char> {
    match e {
        RepositoryError::NotFound(_) => "Entity not found: "@,
        RepositoryError::ConstraintViolation(_) => "Constraint violation: "@,
        RepositoryError::ConnectionError(_) => "Connection error: "@,
        RepositoryError::TransactionError(_) => "Transaction error: "@,
        RepositoryError::QueryError(_) => "Query error: "@,
        RepositoryError::InvalidInput(_) => "Invalid input: "@,
        RepositoryError::Internal(_) => "Internal error: "@,
    }
}

/// The message that an error carries.
pub open spec fn error_message(e: RepositoryError) -> Seq<char> {
    match e {
        RepositoryError::NotFound(m) => m@,
        RepositoryError::ConstraintViolation(m) => m@,
        RepositoryError::ConnectionError(m) => m@,
        RepositoryError::TransactionError(m) => m@,
        RepositoryError::QueryError(m) => m@,
        RepositoryError::InvalidInput(m) => m@,
        RepositoryError::Internal(m) => m@,
    }
}

impl RepositoryError {
    /// A human-readable description: the kind of error, then its message.
    pub fn to_string(&self) -> (r: String)
        ensures
            r@ == error_prefix(*self) + error_message(*self),
    {
        let (prefix, msg) = match self {
            RepositoryError::NotFound(m) => ("Entity not found: ", m),
            RepositoryError::ConstraintViolation(m) => ("Constraint violation: ", m),
            RepositoryError::ConnectionError(m) => ("Connection error: ", m),
            RepositoryError::TransactionError(m) => ("Transaction error: ", m),
            RepositoryError::QueryError(m) => ("Query error: ", m),
            RepositoryError::InvalidInput(m) => ("Invalid input: ", m),
            RepositoryError::Internal(m) => ("Internal error: ", m),
        };
        let mut out = String::from_str(prefix);
        out.append(msg.as_str());
        out
    }
}

} // verus!
