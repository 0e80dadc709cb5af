//! Error taxonomy of the core, and its mapping to HTTP status codes.
//!
//! Every failure a processor can report is one of these values; each maps
//! to exactly one status code and one human-readable message, and nothing
//! internal leaks into a response.

use vstd::prelude::*;

verus! {

/// Failure of authentication itself: bad credentials, credentials missing
/// from the request, or the token could not be produced.
#[derive(Clone, Copy, Debug, PartialEq, Eq, Structural)]
pub enum AuthenticationError {
    WrongCredentials,
    MissingCredentials,
    TokenCreation,
}

/// Failure of the backing store: the addressed row does not exist, or the
/// store refused the operation for an internal reason.
#[derive(Clone, Copy, Debug, PartialEq, Eq, Structural)]
pub enum StorageError {
    NotFound,
    Other,
}

/// Any failure a request processor can report.
#[derive(Clone, Copy, Debug, PartialEq, Eq, Structural)]
pub enum ProcessorError {
    AuthenticationError(AuthenticationError),
    DatabaseError(StorageError),
}

impl AuthenticationError {
    pub open spec fn spec_status_code(self) -> u16 {
        match self {
            AuthenticationError::WrongCredentials => 401,
            AuthenticationError::MissingCredentials => 400,
            AuthenticationError::TokenCreation => 500,
        }
    }

    pub open spec fn spec_message(self) -> Seq<char> {
        match self {
            AuthenticationError::WrongCredentials => "wrong credentials"@,
            AuthenticationError::MissingCredentials => "missing credentials"@,
            AuthenticationError::TokenCreation => "access token creation failed"@,
        }
    }

    pub fn map_to_status_code(&self) -> (r: u16)
        ensures
            r == self.spec_status_code(),
    {
        match self {
            AuthenticationError::WrongCredentials => 401,
            AuthenticationError::MissingCredentials => 400,
            AuthenticationError::TokenCreation => 500,
        }
    }

    pub fn message(&self) -> (r: String)
        ensures
            r@ == self.spec_message(),
    {
        match self {
            AuthenticationError::WrongCredentials => "wrong credentials".to_owned(),
            AuthenticationError::MissingCredentials => "missing credentials".to_owned(),
            AuthenticationError::TokenCreation => "access token creation failed".to_owned(),
        }
    }
}

impl StorageError {
    pub open spec fn spec_status_code(self) -> u16 {
        match self {
            StorageError::NotFound => 404,
            StorageError::Other => 500,
        }
    }

    pub open spec fn spec_message(self) -> Seq<char> {
        match self {
            StorageError::NotFound => "entity not found"@,
            StorageError::Other => "database error"@,
        }
    }

    pub fn map_to_status_code(&self) -> (r: u16)
        ensures
            r == self.spec_status_code(),
    {
        match self {
            StorageError::NotFound => 404,
            StorageError::Other => 500,
        }
    }

    pub fn message(&self) -> (r: String)
        ensures
            r@ == self.spec_message(),
    {
        match self {
            StorageError::NotFound => "entity not found".to_owned(),
            StorageError::Other => "database error".to_owned(),
        }
    }
}

impl ProcessorError {
    pub open spec fn spec_status_code(self) -> u16 {
        match self {
            ProcessorError::AuthenticationError(e) => e.spec_status_code(),
            ProcessorError::DatabaseError(e) => e.spec_status_code(),
        }
    }

    pub open spec fn spec_message(self) -> Seq<char> {
        match self {
            ProcessorError::AuthenticationError(e) => e.spec_message(),
            ProcessorError::DatabaseError(e) => e.spec_message(),
        }
    }

    pub fn map_to_status_code(&self) -> (r: u16)
        ensures
            r == self.spec_status_code(),
    {
        match self {
            ProcessorError::AuthenticationError(e) => e.map_to_status_code(),
            ProcessorError::DatabaseError(e) => e.map_to_status_code(),
        }
    }

    /// The status code and message that a response carries for this error.
    pub fn response_parts(&self) -> (r: (u16, String))
        ensures
            r.0 == self.spec_status_code(),
            r.1@ == self.spec_message(),
    {
        let status = self.map_to_status_code();
        let message = match self {
            ProcessorError::AuthenticationError(e) => e.message(),
            ProcessorError::DatabaseError(e) => e.message(),
        };
        (status, message)
    }
}

} // verus!
