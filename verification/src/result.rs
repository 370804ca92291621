//! Error kinds shared across the crate.

use vstd::prelude::*;

verus! {

/// Failure kinds surfaced by the service core. Callers branch on the kind
/// only; the carried messages are informational.
#[derive(Debug)]
pub enum ServerError {
    Database(String),
    CouldNotCreate(String),
    HashFailed,
    AlreadyExists,
    NotFound,
    ExecutionFailed,
    FileNotFound,
}

/// Failure kinds for login checks.
#[derive(Debug)]
pub enum AuthError {
    InvalidPassword,
    UserNotFound,
    HashFailed,
    Database(String),
}

/// Failure kinds reported by the catalog (persistence) layer.
#[derive(Debug)]
pub enum Error {
    NotFound,
    AlreadyExists,
    Database(String),
}

} // verus!
